//! Points and rectangles, angles in whole minutes of arc, the sector
//! arithmetic of the radial menu, and whole square roots.
//!
//! The angle of a pointer is taken from the host, which has the arc tangent;
//! what can be decided in whole numbers is decided here: the eighth of the
//! turn that an offset lies in, the angle of an offset along an axis or a
//! diagonal, and the sector of an angle. Sines and cosines are the host's
//! too: it hands over a table of directions, which is checked once, and a
//! point on a circle is the table's entry times the radius, rounded.

use vstd::prelude::*;

verus! {

/// Minutes of arc in a full turn.
pub const FULL_TURN: u32 = 21600;

/// Minutes of arc in half a turn.
pub const HALF_TURN: u32 = 10800;

/// Minutes of arc in a quarter of a turn.
pub const QUARTER_TURN: u32 = 5400;

/// Minutes of arc in an eighth of a turn.
pub const EIGHTH_TURN: u32 = 2700;

/// Largest magnitude of a coordinate that the geometry accepts. Every integer
/// up to it is exactly representable in single precision, so that nothing is
/// lost where a host keeps its coordinates that way.
pub const COORD_LIMIT: i32 = 16777216;

/// A position or an offset.
#[derive(Clone, Copy, Debug, PartialEq, Eq, Structural)]
pub struct Point {
    pub x: i32,
    pub y: i32,
}

/// An axis-aligned rectangle given by its corner of least coordinates and its
/// extent.
#[derive(Clone, Copy, Debug, PartialEq, Eq, Structural)]
pub struct Rect {
    pub x: i32,
    pub y: i32,
    pub w: i32,
    pub h: i32,
}

/// Whether `v` is a coordinate that the geometry accepts.
pub open spec fn coord_ok(v: int) -> bool {
    -(COORD_LIMIT as int) <= v <= COORD_LIMIT as int
}

impl Point {
    /// Whether both coordinates are within the accepted range.
    pub open spec fn wf(self) -> bool {
        coord_ok(self.x as int) && coord_ok(self.y as int)
    }

    /// Whether both coordinates are within the accepted range.
    pub fn is_valid(&self) -> (ok: bool)
        ensures
            ok == self.wf(),
    {
        -COORD_LIMIT <= self.x && self.x <= COORD_LIMIT && -COORD_LIMIT <= self.y && self.y
            <= COORD_LIMIT
    }
}

impl Rect {
    /// Whether the extent is not negative and all four corners are within
    /// the accepted range.
    pub open spec fn wf(self) -> bool {
        &&& 0 <= self.w
        &&& 0 <= self.h
        &&& coord_ok(self.x as int)
        &&& coord_ok(self.y as int)
        &&& coord_ok(self.x + self.w)
        &&& coord_ok(self.y + self.h)
    }

    /// Whether `p` lies in the rectangle, its four edges included.
    pub open spec fn holds(self, p: Point) -> bool {
        &&& self.x <= p.x <= self.x + self.w
        &&& self.y <= p.y <= self.y + self.h
    }

    /// The point in the middle of the rectangle, each coordinate rounded
    /// towards the corner of least coordinates.
    pub open spec fn middle(self) -> Point
        recommends
            self.wf(),
    {
        Point { x: (self.x + self.w / 2) as i32, y: (self.y + self.h / 2) as i32 }
    }

    /// Whether the extent is not negative and all four corners are within
    /// the accepted range.
    pub fn is_valid(&self) -> (ok: bool)
        ensures
            ok == self.wf(),
    {
        let limit: i64 = COORD_LIMIT as i64;
        0 <= self.w && 0 <= self.h && -limit <= self.x as i64 && self.x as i64 <= limit && -limit
            <= self.y as i64 && self.y as i64 <= limit && self.x as i64 + self.w as i64 <= limit
            && self.y as i64 + self.h as i64 <= limit
    }

    /// Whether `p` lies in the rectangle, its four edges included.
    pub fn contains(&self, p: Point) -> (inside: bool)
        ensures
            inside == self.holds(p),
    {
        let px: i64 = p.x as i64;
        let py: i64 = p.y as i64;
        let x0: i64 = self.x as i64;
        let y0: i64 = self.y as i64;
        x0 <= px && px <= x0 + self.w as i64 && y0 <= py && py <= y0 + self.h as i64
    }

    /// The point in the middle of the rectangle.
    pub fn center(&self) -> (c: Point)
        requires
            self.wf(),
        ensures
            c == self.middle(),
            c.x == self.x + self.w / 2,
            c.y == self.y + self.h / 2,
    {
        Point { x: self.x + self.w / 2, y: self.y + self.h / 2 }
    }
}

/// The absolute value of `v`.
pub open spec fn magnitude(v: int) -> int {
    if v < 0 { -v } else { v }
}

/// Whether the offset `(dx, dy)` points along an axis or a diagonal: the
/// eight directions whose angle the coordinates give without an arc
/// tangent.
pub open spec fn on_compass(dx: int, dy: int) -> bool {
    dx == 0 || dy == 0 || magnitude(dx) == magnitude(dy)
}

/// The eighth of the turn that holds the direction of the offset `(dx, dy)`,
/// not both zero, counted from the positive x axis towards the positive y
/// axis. Eighth `k` begins with the axis or diagonal at `k` eighths of the
/// turn and ends before the next one. Which eighth an offset lies in is
/// decided by the signs of its coordinates and the order of their
/// magnitudes, without any rounding.
pub open spec fn octant(dx: int, dy: int) -> int {
    if dx > 0 && dy >= 0 {
        if dy < dx { 0 } else { 1 }
    } else if dy > 0 {
        if -dx < dy { 2 } else { 3 }
    } else if dx < 0 {
        if dx < dy { 4 } else { 5 }
    } else {
        if dx < -dy { 6 } else { 7 }
    }
}

/// The angle of the offset `(dx, dy)` in whole minutes of arc, given the
/// `estimate` of it that the host computed: the arc tangent of the offset,
/// measured from the positive x axis towards the positive y axis, brought
/// into the first turn and rounded down. The zero offset has angle zero.
/// An offset along an axis or a diagonal has that direction's angle, whatever
/// the estimate. Any other offset has the estimate, held to the eighth of the
/// turn that the offset lies in: an estimate before the eighth counts as its
/// first minute and one after it as its last.
pub open spec fn held_angle(dx: int, dy: int, estimate: int) -> int {
    if dx == 0 && dy == 0 {
        0
    } else {
        let first = octant(dx, dy) * EIGHTH_TURN;
        if on_compass(dx, dy) || estimate < first {
            first
        } else if estimate >= first + EIGHTH_TURN {
            first + EIGHTH_TURN - 1
        } else {
            estimate
        }
    }
}

/// The angle of an offset lies within the first turn.
pub proof fn lemma_held_angle_bounds(dx: int, dy: int, estimate: int)
    ensures
        0 <= held_angle(dx, dy, estimate) < FULL_TURN,
{
}

/// The angle of an offset along an axis or a diagonal is that direction's,
/// whatever the estimate.
pub proof fn lemma_held_angle_compass(d: int, estimate: int)
    requires
        0 < d,
    ensures
        held_angle(d, 0, estimate) == 0,
        held_angle(d, d, estimate) == EIGHTH_TURN,
        held_angle(0, d, estimate) == QUARTER_TURN,
        held_angle(-d, d, estimate) == 3 * EIGHTH_TURN,
        held_angle(-d, 0, estimate) == HALF_TURN,
        held_angle(-d, -d, estimate) == 5 * EIGHTH_TURN,
        held_angle(0, -d, estimate) == 3 * QUARTER_TURN,
        held_angle(d, -d, estimate) == 7 * EIGHTH_TURN,
{
}

/// The angle of an offset depends on its direction alone: stretching the
/// offset by a positive factor leaves the angle as it is.
pub proof fn lemma_held_angle_scale(dx: int, dy: int, k: int, estimate: int)
    requires
        0 < k,
    ensures
        held_angle(k * dx, k * dy, estimate) == held_angle(dx, dy, estimate),
{
    assert((k * dx == 0) == (dx == 0) && (k * dx < 0) == (dx < 0) && (k * dy == 0) == (dy == 0)
        && (k * dy < 0) == (dy < 0)) by (nonlinear_arith)
        requires
            0 < k,
    ;
    assert((k * dy < k * dx) == (dy < dx) && (-(k * dx) < k * dy) == (-dx < dy) && (k * dx < -(k
        * dy)) == (dx < -dy) && (k * dy == k * dx) == (dy == dx) && (k * dy == -(k * dx)) == (dy
        == -dx)) by (nonlinear_arith)
        requires
            0 < k,
    ;
}

/// The angle of the offset `(dx, dy)`, given the host's estimate of it.
pub fn pointer_angle(dx: i64, dy: i64, estimate: u32) -> (angle: u32)
    requires
        -0x1_0000_0000 < dx < 0x1_0000_0000,
        -0x1_0000_0000 < dy < 0x1_0000_0000,
    ensures
        angle == held_angle(dx as int, dy as int, estimate as int),
        angle < FULL_TURN,
{
    if dx == 0 && dy == 0 {
        return 0;
    }
    let eighth: u32 = if dx > 0 && dy >= 0 {
        if dy < dx { 0 } else { 1 }
    } else if dy > 0 {
        if -dx < dy { 2 } else { 3 }
    } else if dx < 0 {
        if dx < dy { 4 } else { 5 }
    } else {
        if dx < -dy { 6 } else { 7 }
    };
    let first: u32 = eighth * EIGHTH_TURN;
    let compass = dx == 0 || dy == 0 || dx == dy || dx == -dy;
    if compass || estimate < first {
        first
    } else if estimate >= first + EIGHTH_TURN {
        first + EIGHTH_TURN - 1
    } else {
        estimate
    }
}

/// The number of sectors of a menu with `n` icons: at least one.
pub open spec fn sector_count(n: int) -> int {
    if n < 1 { 1 } else { n }
}

/// The sector that holds the direction `angle`, for a menu of `n` icons.
/// Sector `k` covers the half-open range of angles from `k / count` of a turn
/// up to, and not including, `(k + 1) / count` of a turn.
pub open spec fn sector_of(angle: int, n: int) -> int {
    (angle % (FULL_TURN as int)) * sector_count(n) / (FULL_TURN as int)
}

/// The least angle of sector `k` in a menu of `n` icons: `k / count` of a
/// turn, rounded up to a whole minute of arc. For `k == count` it is the full
/// turn.
pub open spec fn sector_start(k: int, n: int) -> int {
    (k * FULL_TURN + sector_count(n) - 1) / sector_count(n)
}

/// The sector of a direction within the first turn is at least zero and less
/// than the number of sectors.
pub proof fn lemma_sector_bounds(angle: int, count: int)
    requires
        0 <= angle < FULL_TURN,
        1 <= count,
    ensures
        0 <= angle * count / (FULL_TURN as int) < count,
        0 <= angle * count < FULL_TURN * count,
{
    assert(0 <= angle * count < 21600 * count) by (nonlinear_arith)
        requires
            0 <= angle < 21600,
            1 <= count,
    ;
    vstd::arithmetic::div_mod::lemma_multiply_divide_lt(angle * count, 21600, count);
    vstd::arithmetic::div_mod::lemma_div_pos_is_pos(angle * count, 21600);
}

/// Every direction lies in one of the sectors: for any angle and any number
/// of icons the sector is at least zero and less than the sector count.
pub proof fn lemma_sector_of_range(angle: int, n: int)
    ensures
        0 <= sector_of(angle, n) < sector_count(n),
{
    vstd::arithmetic::div_mod::lemma_mod_bound(angle, FULL_TURN as int);
    lemma_sector_bounds(angle % (FULL_TURN as int), sector_count(n));
}

/// Sectors are half-open: a direction within the first turn lies in sector
/// `k` exactly if it is at or after `k / count` of a turn and before
/// `(k + 1) / count` of a turn.
pub proof fn lemma_sector_half_open(angle: int, n: int, k: int)
    requires
        0 <= angle < FULL_TURN,
    ensures
        sector_of(angle, n) == k <==> k * FULL_TURN <= angle * sector_count(n) < (k + 1)
            * FULL_TURN,
{
    let c = sector_count(n);
    let t = FULL_TURN as int;
    let x = angle * c;
    vstd::arithmetic::div_mod::lemma_small_mod(angle as nat, t as nat);
    vstd::arithmetic::div_mod::lemma_fundamental_div_mod(x, t);
    vstd::arithmetic::div_mod::lemma_mod_bound(x, t);
    let q = x / t;
    assert(t * q == q * t) by (nonlinear_arith);
    assert((k + 1) * t == k * t + t) by (nonlinear_arith);
    if k * t <= x < (k + 1) * t {
        vstd::arithmetic::div_mod::lemma_fundamental_div_mod_converse(x, t, k, x - k * t);
    }
}

/// The least angle of a sector lies within the turn, and the sectors follow
/// one another without a gap.
pub proof fn lemma_sector_start_bounds(k: int, n: int)
    requires
        0 <= k <= sector_count(n),
    ensures
        0 <= sector_start(k, n) <= FULL_TURN,
        k < sector_count(n) ==> sector_start(k, n) <= sector_start(k + 1, n),
        sector_start(0, n) == 0,
        sector_start(sector_count(n), n) == FULL_TURN,
{
    let c = sector_count(n);
    let t = FULL_TURN as int;
    assert(0 <= k * t <= c * t) by (nonlinear_arith)
        requires
            0 <= k <= c,
            t == 21600,
    ;
    vstd::arithmetic::div_mod::lemma_div_pos_is_pos(k * t + c - 1, c);
    vstd::arithmetic::div_mod::lemma_div_is_ordered(k * t + c - 1, c * t + c - 1, c);
    vstd::arithmetic::div_mod::lemma_fundamental_div_mod_converse(c * t + c - 1, c, t, c - 1);
    assert(c * t == t * c) by (nonlinear_arith);
    if k < c {
        assert((k + 1) * t == k * t + t) by (nonlinear_arith);
        vstd::arithmetic::div_mod::lemma_div_is_ordered(k * t + c - 1, (k + 1) * t + c - 1, c);
    }
    assert(0 * t == 0);
    vstd::arithmetic::div_mod::lemma_fundamental_div_mod_converse(c - 1, c, 0, c - 1);
}

/// A pointer exactly on the boundary between two sectors is in the sector
/// that begins there, and the direction one minute of arc before it is still
/// in the sector before.
pub proof fn lemma_sector_boundary(k: int, n: int)
    requires
        0 <= k < sector_count(n) <= FULL_TURN,
    ensures
        0 <= sector_start(k, n) < FULL_TURN,
        sector_of(sector_start(k, n), n) == k,
        k > 0 ==> sector_of(sector_start(k, n) - 1, n) == k - 1,
{
    let c = sector_count(n);
    let t = FULL_TURN as int;
    let a = sector_start(k, n);
    lemma_sector_start_bounds(k, n);
    let y = k * t + c - 1;
    vstd::arithmetic::div_mod::lemma_fundamental_div_mod(y, c);
    vstd::arithmetic::div_mod::lemma_mod_bound(y, c);
    assert(c * a == a * c) by (nonlinear_arith);
    assert((k + 1) * t == k * t + t) by (nonlinear_arith);
    assert(k * t <= a * c < k * t + c);
    assert(k * t + t <= c * t) by (nonlinear_arith)
        requires
            k + 1 <= c,
            t == 21600,
    ;
    if a >= t {
        assert(a * c >= t * c) by (nonlinear_arith)
            requires
                a >= t,
                c >= 1,
        ;
        assert(t * c == c * t) by (nonlinear_arith);
    }
    lemma_sector_half_open(a, n, k);
    if k > 0 {
        assert((a - 1) * c == a * c - c) by (nonlinear_arith);
        assert((k - 1) * t == k * t - t) by (nonlinear_arith);
        assert(k * t >= t) by (nonlinear_arith)
            requires
                k >= 1,
                t == 21600,
        ;
        assert(a >= 1) by {
            if a <= 0 {
                assert(a * c <= 0) by (nonlinear_arith)
                    requires
                        a <= 0,
                        c >= 1,
                ;
            }
        }
        lemma_sector_half_open(a - 1, n, k - 1);
    }
}

/// The number of sectors of a menu with `n` icons.
pub fn clamp_sector_count(n: usize) -> (count: usize)
    ensures
        count == sector_count(n as int),
        count >= 1,
{
    if n < 1 { 1 } else { n }
}

/// The sector that holds the direction `angle` (any number of minutes of arc;
/// whole turns are dropped) in a menu of `n` icons.
pub fn sector_at(angle: u32, n: usize) -> (sector: usize)
    ensures
        sector == sector_of(angle as int, n as int),
        sector < sector_count(n as int),
{
    let count: usize = clamp_sector_count(n);
    let a: u32 = angle % FULL_TURN;
    proof {
        lemma_sector_bounds(a as int, count as int);
    }
    let wide: u128 = (a as u128) * (count as u128) / (FULL_TURN as u128);
    wide as usize
}

/// The least angle of sector `k`.
pub fn sector_start_angle(k: usize, n: usize) -> (angle: u32)
    requires
        k <= sector_count(n as int),
    ensures
        angle == sector_start(k as int, n as int),
        angle <= FULL_TURN,
{
    let count: usize = clamp_sector_count(n);
    proof {
        lemma_sector_start_bounds(k as int, n as int);
    }
    let wide: u128 = ((k as u128) * (FULL_TURN as u128) + (count as u128) - 1) / (count as u128);
    wide as u32
}

/// The sector of a menu of `n` icons centred at `center` that the pointer at
/// `pointer` hovers over, given the host's estimate of the angle of the
/// pointer as seen from the centre.
pub fn active_sector(pointer: Point, center: Point, estimate: u32, n: usize) -> (sector: usize)
    ensures
        sector == sector_of(
            held_angle(pointer.x - center.x, pointer.y - center.y, estimate as int),
            n as int,
        ),
        sector < sector_count(n as int),
{
    let dx: i64 = pointer.x as i64 - center.x as i64;
    let dy: i64 = pointer.y as i64 - center.y as i64;
    sector_at(pointer_angle(dx, dy, estimate), n)
}

/// The largest number whose square does not exceed `n`.
pub open spec fn floor_sqrt(n: nat) -> nat
    decreases n,
{
    if n == 0 {
        0
    } else {
        let r = floor_sqrt((n - 1) as nat);
        if (r + 1) * (r + 1) <= n {
            r + 1
        } else {
            r
        }
    }
}

/// `a` divided by `b > 0` and rounded to the nearest whole number, halves
/// upwards.
pub open spec fn rounded_div(a: int, b: int) -> int {
    (2 * a + b) / (2 * b)
}

/// The square of `floor_sqrt(n)` does not exceed `n`, and the next square
/// does.
pub proof fn lemma_floor_sqrt(n: nat)
    ensures
        floor_sqrt(n) * floor_sqrt(n) <= n < (floor_sqrt(n) + 1) * (floor_sqrt(n) + 1),
    decreases n,
{
    if n > 0 {
        lemma_floor_sqrt((n - 1) as nat);
        let r = floor_sqrt((n - 1) as nat);
        assert((r + 1) * (r + 1) < (r + 2) * (r + 2)) by (nonlinear_arith)
            requires
                0 <= r,
        ;
        assert(r + 1 + 1 == r + 2);
    } else {
        assert(floor_sqrt(0) == 0);
        assert(0 * 0 == 0 && (0 + 1) * (0 + 1) == 1) by (nonlinear_arith);
    }
}

/// Only one number has its square at or below `n` and its successor's square
/// above.
pub proof fn lemma_floor_sqrt_unique(n: nat, r: nat)
    requires
        r * r <= n < (r + 1) * (r + 1),
    ensures
        r == floor_sqrt(n),
{
    lemma_floor_sqrt(n);
    let s = floor_sqrt(n);
    if r < s {
        assert((r + 1) * (r + 1) <= s * s) by (nonlinear_arith)
            requires
                0 <= r < s,
        ;
    } else if s < r {
        assert((s + 1) * (s + 1) <= r * r) by (nonlinear_arith)
            requires
                0 <= s < r,
        ;
    }
}

/// Neither leg of a right triangle is longer than the whole part of its
/// hypotenuse.
pub proof fn lemma_leg_below_hypotenuse(a: int, b: int)
    ensures
        magnitude(a) <= floor_sqrt((a * a + b * b) as nat),
        0 <= a * a + b * b,
        a != 0 ==> floor_sqrt((a * a + b * b) as nat) > 0,
{
    assert(0 <= a * a && 0 <= b * b) by (nonlinear_arith);
    let n = (a * a + b * b) as nat;
    lemma_floor_sqrt(n);
    let r = floor_sqrt(n) as int;
    let m = magnitude(a);
    assert(m * m == a * a) by (nonlinear_arith)
        requires
            m == a || m == -a,
    ;
    if m > r {
        assert((r + 1) * (r + 1) <= m * m) by (nonlinear_arith)
            requires
                0 <= r < m,
        ;
    }
}

/// A quotient rounded to the nearest whole number stays within `h` where the
/// dividend stays within `h` times the divisor.
pub proof fn lemma_rounded_div_bound(a: int, b: int, h: int)
    requires
        0 < b,
        0 <= h,
        -(b * h) <= a <= b * h,
    ensures
        -h <= rounded_div(a, b) <= h,
{
    let num = 2 * a + b;
    let den = 2 * b;
    assert(den * h == 2 * (b * h)) by (nonlinear_arith)
        requires
            den == 2 * b,
    ;
    assert(den * (-h) == -(2 * (b * h))) by (nonlinear_arith)
        requires
            den == 2 * b,
    ;
    vstd::arithmetic::div_mod::lemma_div_is_ordered(num, den * h + b, den);
    vstd::arithmetic::div_mod::lemma_div_is_ordered(den * (-h) + b, num, den);
    vstd::arithmetic::div_mod::lemma_fundamental_div_mod_converse(den * h + b, den, h, b);
    vstd::arithmetic::div_mod::lemma_fundamental_div_mod_converse(den * (-h) + b, den, -h, b);
    assert(h * den == den * h && (-h) * den == den * (-h)) by (nonlinear_arith);
}

/// The largest number whose square does not exceed `n`.
pub fn isqrt(n: u64) -> (r: u64)
    ensures
        r == floor_sqrt(n as nat),
        r * r <= n < (r + 1) * (r + 1),
        r < 0x1_0000_0000,
{
    let mut lo: u64 = 0;
    let mut hi: u64 = 0x1_0000_0000;
    assert(0x1_0000_0000 * 0x1_0000_0000 > n) by (nonlinear_arith)
        requires
            n <= 0xffff_ffff_ffff_ffff,
    ;
    while hi - lo > 1
        invariant
            0 <= lo < hi <= 0x1_0000_0000,
            lo * lo <= n < hi * hi,
        decreases hi - lo,
    {
        let mid: u64 = lo + (hi - lo) / 2;
        assert(mid * mid < 0x1_0000_0000 * 0x1_0000_0000) by (nonlinear_arith)
            requires
                0 <= mid < 0x1_0000_0000,
        ;
        if mid as u128 * mid as u128 <= n as u128 {
            lo = mid;
        } else {
            hi = mid;
        }
    }
    proof {
        lemma_floor_sqrt_unique(n as nat, lo as nat);
    }
    lo
}

/// `a` divided by `b` and rounded to the nearest whole number, halves
/// upwards.
pub fn round_div(a: i64, b: i64) -> (q: i64)
    requires
        0 < b < 0x1000_0000_0000_0000,
        -0x1000_0000_0000_0000 < a < 0x1000_0000_0000_0000,
    ensures
        q == rounded_div(a as int, b as int),
{
    let num: i64 = 2 * a + b;
    let den: i64 = 2 * b;
    if num >= 0 {
        num / den
    } else {
        let up: i64 = (-num + den - 1) / den;
        proof {
            let m = -(num as int);
            let d = den as int;
            let c = (m + d - 1) / d;
            vstd::arithmetic::div_mod::lemma_fundamental_div_mod(m + d - 1, d);
            vstd::arithmetic::div_mod::lemma_mod_bound(m + d - 1, d);
            let r = c * d - m;
            assert(d * c == c * d) by (nonlinear_arith);
            assert((-c) * d == -(c * d)) by (nonlinear_arith);
            vstd::arithmetic::div_mod::lemma_fundamental_div_mod_converse(num as int, d, -c, r);
        }
        -up
    }
}

/// What the cosine and the sine of a direction are multiplied with in a
/// table of directions.
pub const UNIT: i32 = 268435456;

/// The directions of the turn as the host computed them: for each whole
/// minute of arc from the positive x axis towards the positive y axis, the
/// cosine and the sine times `UNIT`, rounded to whole numbers. The library has
/// no sine of its own; where it places a point on a circle, it takes the
/// direction from here. A table is checked when it is taken, and every table
/// in use has passed the check.
#[derive(Debug, PartialEq, Eq)]
pub struct Directions {
    table: Vec<Point>,
}

/// Whether `e` can stand for a direction: neither coordinate is beyond
/// `UNIT`, and the point lies within one of the circle of radius `UNIT`.
pub open spec fn entry_ok(e: Point) -> bool {
    &&& -UNIT <= e.x <= UNIT
    &&& -UNIT <= e.y <= UNIT
    &&& (UNIT - 1) * (UNIT - 1) <= e.x * e.x + e.y * e.y <= (UNIT + 1) * (UNIT + 1)
}

/// The least and the most that the square of the distance between two
/// neighbouring entries of a table may be: the squares of 78083 and 78087.
pub const STEP_LEAST: i64 = 6096954889;

pub const STEP_MOST: i64 = 6097579569;

/// The minute of arc after minute `a`, around the turn.
pub open spec fn next_minute(a: int) -> int {
    if a + 1 == FULL_TURN {
        0
    } else {
        a + 1
    }
}

/// Whether the entry for minute `a` and the one after it lie one step apart
/// in the direction of the turn: the x coordinate falls over the first half
/// of the turn and rises over the second, the y coordinate rises over the
/// first and the last quarter and falls in between, and the distance
/// between the two entries is that of one minute of arc.
pub open spec fn step_ok(table: Seq<Point>, a: int) -> bool {
    let e = table[a];
    let n = table[next_minute(a)];
    &&& a < HALF_TURN ==> n.x <= e.x
    &&& a >= HALF_TURN ==> n.x >= e.x
    &&& a < QUARTER_TURN || a >= 3 * QUARTER_TURN ==> n.y >= e.y
    &&& QUARTER_TURN <= a < 3 * QUARTER_TURN ==> n.y <= e.y
    &&& STEP_LEAST <= (n.x - e.x) * (n.x - e.x) + (n.y - e.y) * (n.y - e.y) <= STEP_MOST
}

/// Whether the four entries for the axes are the axes themselves.
pub open spec fn axes_ok(table: Seq<Point>) -> bool {
    &&& table[0].x == UNIT && table[0].y == 0
    &&& table[QUARTER_TURN as int].x == 0 && table[QUARTER_TURN as int].y == UNIT
    &&& table[HALF_TURN as int].x == -UNIT && table[HALF_TURN as int].y == 0
    &&& table[3 * QUARTER_TURN].x == 0 && table[3 * QUARTER_TURN].y == -UNIT
}

/// Whether `table` can serve as a table of directions: it has one entry for
/// each minute of arc of the turn, each entry can stand for a direction,
/// the entries for the axes are the axes, and from each entry to the next
/// it is one step in the direction of the turn. These are conditions on
/// whole numbers alone. What they are meant to admit is the table of the
/// cosines and sines of the whole minutes of arc, times `UNIT`, each rounded
/// to the nearest whole number; what they keep out is a table that does not
/// go once round the circle at an even pace.
pub open spec fn table_ok(table: Seq<Point>) -> bool {
    &&& table.len() == FULL_TURN
    &&& axes_ok(table)
    &&& forall|a: int| 0 <= a < FULL_TURN ==> entry_ok(#[trigger] table[a])
    &&& forall|a: int| 0 <= a < FULL_TURN ==> #[trigger] step_ok(table, a)
}

/// The cosine of `angle` (minutes of arc, whole turns dropped) times `r`,
/// rounded to the nearest whole number, by the table.
pub open spec fn scaled_cos(table: Seq<Point>, angle: int, r: int) -> int {
    rounded_div(table[angle % (FULL_TURN as int)].x * r, UNIT as int)
}

/// The sine of `angle` (minutes of arc, whole turns dropped) times `r`,
/// rounded to the nearest whole number, by the table.
pub open spec fn scaled_sin(table: Seq<Point>, angle: int, r: int) -> int {
    rounded_div(table[angle % (FULL_TURN as int)].y * r, UNIT as int)
}

/// The point at distance `radius` from `center` in the direction `angle`, by
/// the table: each coordinate of the centre moved by the table's entry times
/// the radius, rounded to the nearest unit.
pub open spec fn polar_point(table: Seq<Point>, center: Point, angle: int, radius: int) -> Point {
    Point {
        x: (center.x + scaled_cos(table, angle, radius)) as i32,
        y: (center.y + scaled_sin(table, angle, radius)) as i32,
    }
}

/// By a table that can serve, a scaled cosine or sine never exceeds the
/// scale in magnitude.
pub proof fn lemma_scaled_bounds(table: Seq<Point>, angle: int, r: int)
    requires
        table_ok(table),
        0 <= r,
    ensures
        -r <= scaled_cos(table, angle, r) <= r,
        -r <= scaled_sin(table, angle, r) <= r,
{
    let a = angle % (FULL_TURN as int);
    let e = table[a];
    assert(entry_ok(e));
    assert(-(UNIT * r) <= e.x * r <= UNIT * r && -(UNIT * r) <= e.y * r <= UNIT * r)
        by (nonlinear_arith)
        requires
            -UNIT <= e.x <= UNIT,
            -UNIT <= e.y <= UNIT,
            0 <= r,
    ;
    lemma_rounded_div_bound(e.x * r, UNIT as int, r);
    lemma_rounded_div_bound(e.y * r, UNIT as int, r);
}

/// By a table that can serve, the four axes are exact: at no angle and at
/// every quarter of the turn, the scaled cosine and sine are the scale
/// itself, its negative, or zero.
pub proof fn lemma_scaled_axes(table: Seq<Point>, r: int)
    requires
        table_ok(table),
    ensures
        scaled_cos(table, 0, r) == r && scaled_sin(table, 0, r) == 0,
        scaled_cos(table, QUARTER_TURN as int, r) == 0 && scaled_sin(table, QUARTER_TURN as int, r)
            == r,
        scaled_cos(table, HALF_TURN as int, r) == -r && scaled_sin(table, HALF_TURN as int, r)
            == 0,
        scaled_cos(table, 3 * QUARTER_TURN, r) == 0 && scaled_sin(table, 3 * QUARTER_TURN, r)
            == -r,
{
    let u = UNIT as int;
    assert(u * r == r * u && (-u) * r == -(r * u) && 0 * r == 0) by (nonlinear_arith);
    assert(2 * (r * u) + u == r * (2 * u) + u && 2 * (-(r * u)) + u == (-r) * (2 * u) + u && u
        == 0 * (2 * u) + u) by (nonlinear_arith);
    vstd::arithmetic::div_mod::lemma_fundamental_div_mod_converse(2 * (r * u) + u, 2 * u, r, u);
    vstd::arithmetic::div_mod::lemma_fundamental_div_mod_converse(
        2 * (-(r * u)) + u,
        2 * u,
        -r,
        u,
    );
    vstd::arithmetic::div_mod::lemma_fundamental_div_mod_converse(u, 2 * u, 0, u);
}

/// How far a whole number `q` that is `a / u` rounded lies from the
/// fraction: twice `u` times `q` differs from twice `a` by at most `u`.
proof fn lemma_rounded_div_near(a: int, u: int)
    requires
        0 < u,
    ensures
        -u < 2 * u * rounded_div(a, u) - 2 * a <= u,
{
    let q = rounded_div(a, u);
    vstd::arithmetic::div_mod::lemma_fundamental_div_mod(2 * a + u, 2 * u);
    vstd::arithmetic::div_mod::lemma_mod_bound(2 * a + u, 2 * u);
    assert(2 * u * q == (2 * u) * q) by (nonlinear_arith);
}

/// The square of a sum of a doubled product and a small rest lies near four
/// times the square of the product.
proof fn lemma_square_near(p: int, a: int, d: int, u: int, r: int)
    requires
        p == 2 * a + d,
        0 < u,
        0 <= r,
        -u <= d <= u,
        -(u * r) <= a <= u * r,
    ensures
        4 * (a * a) - 4 * (u * u * r) <= p * p <= 4 * (a * a) + 4 * (u * u * r) + u * u,
{
    assert(p * p == 4 * (a * a) + 4 * (a * d) + d * d) by (nonlinear_arith)
        requires
            p == 2 * a + d,
    ;
    assert(0 <= d * d <= u * u) by (nonlinear_arith)
        requires
            -u <= d <= u,
    ;
    let m = u * r;
    assert(-(m * u) <= a * d <= m * u) by (nonlinear_arith)
        requires
            -m <= a <= m,
            -u <= d <= u,
            0 <= m,
            0 < u,
    ;
    assert(0 <= m) by (nonlinear_arith)
        requires
            m == u * r,
            0 < u,
            0 <= r,
    ;
    assert(m * u == u * u * r) by (nonlinear_arith)
        requires
            m == u * r,
    ;
}

/// By a table that can serve, a point placed at distance `r` lies within
/// about two units of the circle of radius `r`: the sum of the squares of
/// its scaled cosine and sine is at most the square of `r + 2` and at least
/// the square of `r - 2`, less four.
pub proof fn lemma_scaled_on_circle(table: Seq<Point>, angle: int, r: int)
    requires
        table_ok(table),
        0 <= r <= 0x800_0000,
    ensures
        ({
            let x = scaled_cos(table, angle, r);
            let y = scaled_sin(table, angle, r);
            (r - 2) * (r - 2) - 4 <= x * x + y * y <= (r + 2) * (r + 2)
        }),
{
    let u = UNIT as int;
    let e = table[angle % (FULL_TURN as int)];
    assert(entry_ok(e));
    let ex = e.x as int;
    let ey = e.y as int;
    let a = ex * r;
    let b = ey * r;
    let x = scaled_cos(table, angle, r);
    let y = scaled_sin(table, angle, r);
    lemma_rounded_div_near(a, u);
    lemma_rounded_div_near(b, u);
    let p = 2 * u * x;
    let q = 2 * u * y;
    assert(-(u * r) <= a <= u * r && -(u * r) <= b <= u * r) by (nonlinear_arith)
        requires
            a == ex * r,
            b == ey * r,
            -u <= ex <= u,
            -u <= ey <= u,
            0 <= r,
    ;
    lemma_square_near(p, a, p - 2 * a, u, r);
    lemma_square_near(q, b, q - 2 * b, u, r);
    let n = ex * ex + ey * ey;
    assert(a * a + b * b == (r * r) * n) by (nonlinear_arith)
        requires
            a == ex * r,
            b == ey * r,
            n == ex * ex + ey * ey,
    ;
    let rr = r * r;
    let uu = u * u;
    assert(0 <= rr) by (nonlinear_arith)
        requires
            rr == r * r,
    ;
    assert((u - 1) * (u - 1) == uu - 2 * u + 1 && (u + 1) * (u + 1) == uu + 2 * u + 1)
        by (nonlinear_arith)
        requires
            uu == u * u,
    ;
    assert(rr * (uu - 2 * u + 1) <= rr * n <= rr * (uu + 2 * u + 1)) by (nonlinear_arith)
        requires
            0 <= rr,
            uu - 2 * u + 1 <= n <= uu + 2 * u + 1,
    ;
    assert(rr * (uu + 2 * u + 1) == rr * uu + rr * (2 * u + 1) && rr * (uu - 2 * u + 1) == rr * uu
        - rr * (2 * u - 1)) by (nonlinear_arith);
    // the square of the radius times twice the unit is at most twice the
    // square of the unit times the radius
    assert(rr * (2 * u + 1) <= 2 * (uu * r)) by (nonlinear_arith)
        requires
            rr == r * r,
            uu == u * u,
            u == 0x1000_0000,
            0 <= r <= 0x800_0000,
    ;
    assert(rr * (2 * u - 1) <= 2 * (uu * r)) by (nonlinear_arith)
        requires
            rr * (2 * u + 1) <= 2 * (uu * r),
            0 <= rr,
            0 < u,
    ;
    let s = p * p + q * q;
    assert(u * u * r == uu * r);
    assert(s <= 4 * (rr * uu) + 16 * (uu * r) + 16 * uu);
    assert(s >= 4 * (rr * uu) - 16 * (uu * r));
    assert(p * p == 4 * uu * (x * x) && q * q == 4 * uu * (y * y)) by (nonlinear_arith)
        requires
            p == 2 * u * x,
            q == 2 * u * y,
            uu == u * u,
    ;
    let t = x * x + y * y;
    assert(s == (4 * uu) * t) by (nonlinear_arith)
        requires
            s == p * p + q * q,
            p * p == 4 * uu * (x * x),
            q * q == 4 * uu * (y * y),
            t == x * x + y * y,
    ;
    assert(4 * (rr * uu) + 16 * (uu * r) + 16 * uu == (4 * uu) * ((r + 2) * (r + 2)) && 4 * (rr
        * uu) - 16 * (uu * r) == (4 * uu) * ((r - 2) * (r - 2) - 4)) by (nonlinear_arith)
        requires
            rr == r * r,
    ;
    assert((r - 2) * (r - 2) - 4 <= t <= (r + 2) * (r + 2)) by (nonlinear_arith)
        requires
            (4 * uu) * ((r - 2) * (r - 2) - 4) <= (4 * uu) * t <= (4 * uu) * ((r + 2) * (r + 2)),
            0 < uu,
    ;
}

/// By a table that can serve, the entries fall in x and rise in y over the
/// first quarter of the turn.
pub proof fn lemma_first_quarter_order(table: Seq<Point>, a: int, b: int)
    requires
        table_ok(table),
        0 <= a <= b <= QUARTER_TURN,
    ensures
        table[b].x <= table[a].x,
        table[a].y <= table[b].y,
    decreases b - a,
{
    if a < b {
        lemma_first_quarter_order(table, a, b - 1);
        assert(step_ok(table, b - 1));
    }
}

/// By a table that can serve, a point on a circle moves one way over the
/// first quarter of the turn: as the angle grows, the scaled cosine does not
/// grow and the scaled sine does not fall, and neither is negative.
pub proof fn lemma_scaled_order(table: Seq<Point>, a: int, b: int, r: int)
    requires
        table_ok(table),
        0 <= a <= b <= QUARTER_TURN,
        0 <= r,
    ensures
        0 <= scaled_cos(table, b, r) <= scaled_cos(table, a, r) <= r,
        0 <= scaled_sin(table, a, r) <= scaled_sin(table, b, r) <= r,
{
    let u = UNIT as int;
    lemma_first_quarter_order(table, a, b);
    lemma_first_quarter_order(table, 0, a);
    lemma_first_quarter_order(table, b, QUARTER_TURN as int);
    lemma_scaled_bounds(table, a, r);
    lemma_scaled_bounds(table, b, r);
    let ea = table[a];
    let eb = table[b];
    assert(0 <= eb.x * r <= ea.x * r && 0 <= ea.y * r <= eb.y * r) by (nonlinear_arith)
        requires
            0 <= eb.x <= ea.x,
            0 <= ea.y <= eb.y,
            0 <= r,
    ;
    vstd::arithmetic::div_mod::lemma_div_is_ordered(2 * (eb.x * r) + u, 2 * (ea.x * r) + u, 2 * u);
    vstd::arithmetic::div_mod::lemma_div_is_ordered(2 * (ea.y * r) + u, 2 * (eb.y * r) + u, 2 * u);
    vstd::arithmetic::div_mod::lemma_div_pos_is_pos(2 * (eb.x * r) + u, 2 * u);
    vstd::arithmetic::div_mod::lemma_div_pos_is_pos(2 * (ea.y * r) + u, 2 * u);
}

impl View for Directions {
    type V = Seq<Point>;

    /// The entries of the table, by the minute of arc.
    closed spec fn view(&self) -> Seq<Point> {
        self.table@
    }
}

impl Directions {
    #[verifier::type_invariant]
    closed spec fn can_serve(self) -> bool {
        table_ok(self.table@)
    }

    /// Takes a table that the host computed, where it can serve.
    pub fn from_table(table: Vec<Point>) -> (directions: Option<Directions>)
        ensures
            directions is Some <==> table_ok(table@),
            directions matches Some(d) ==> d@ == table@,
    {
        if table.len() != FULL_TURN as usize {
            return None;
        }
        if !axes_are_ok(&table) {
            return None;
        }
        let mut a: usize = 0;
        while a < table.len()
            invariant
                table@.len() == FULL_TURN,
                0 <= a <= table@.len(),
                forall|k: int| 0 <= k < a ==> entry_ok(#[trigger] table@[k]),
            decreases table.len() - a,
        {
            if !entry_is_ok(table[a]) {
                return None;
            }
            a = a + 1;
        }
        let mut a: usize = 0;
        while a < table.len()
            invariant
                table@.len() == FULL_TURN,
                0 <= a <= table@.len(),
                forall|k: int| 0 <= k < FULL_TURN ==> entry_ok(#[trigger] table@[k]),
                forall|k: int| 0 <= k < a ==> #[trigger] step_ok(table@, k),
            decreases table.len() - a,
        {
            if !step_is_ok(&table, a) {
                return None;
            }
            a = a + 1;
        }
        Some(Directions { table })
    }

    /// The entry of the table for `angle`.
    pub fn entry(&self, angle: u32) -> (e: Point)
        ensures
            e == self@[angle as int % (FULL_TURN as int)],
            entry_ok(e),
    {
        proof {
            use_type_invariant(self);
        }
        self.table[(angle % FULL_TURN) as usize]
    }

    /// The cosine of `angle` times `radius`, by the table.
    pub fn cos_times(&self, angle: u32, radius: u32) -> (v: i64)
        ensures
            v == scaled_cos(self@, angle as int, radius as int),
            -(radius as int) <= v <= radius as int,
    {
        let e = self.entry(angle);
        proof {
            use_type_invariant(self);
            lemma_scaled_bounds(self@, angle as int, radius as int);
            assert(-(0x1000_0000 * 0xffff_ffff) <= e.x * radius <= 0x1000_0000 * 0xffff_ffff)
                by (nonlinear_arith)
                requires
                    -0x1000_0000 <= e.x <= 0x1000_0000,
                    0 <= radius <= 0xffff_ffff,
            ;
        }
        round_div(e.x as i64 * radius as i64, UNIT as i64)
    }

    /// The sine of `angle` times `radius`, by the table.
    pub fn sin_times(&self, angle: u32, radius: u32) -> (v: i64)
        ensures
            v == scaled_sin(self@, angle as int, radius as int),
            -(radius as int) <= v <= radius as int,
    {
        let e = self.entry(angle);
        proof {
            use_type_invariant(self);
            lemma_scaled_bounds(self@, angle as int, radius as int);
            assert(-(0x1000_0000 * 0xffff_ffff) <= e.y * radius <= 0x1000_0000 * 0xffff_ffff)
                by (nonlinear_arith)
                requires
                    -0x1000_0000 <= e.y <= 0x1000_0000,
                    0 <= radius <= 0xffff_ffff,
            ;
        }
        round_div(e.y as i64 * radius as i64, UNIT as i64)
    }

    /// The point at distance `radius` from `center` in the direction
    /// `angle`, by the table.
    pub fn polar(&self, center: Point, angle: u32, radius: u32) -> (p: Point)
        requires
            i32::MIN <= center.x - radius,
            center.x + radius <= i32::MAX,
            i32::MIN <= center.y - radius,
            center.y + radius <= i32::MAX,
        ensures
            p == polar_point(self@, center, angle as int, radius as int),
            center.x - radius <= p.x <= center.x + radius,
            center.y - radius <= p.y <= center.y + radius,
    {
        let dx: i64 = self.cos_times(angle, radius);
        let dy: i64 = self.sin_times(angle, radius);
        Point { x: (center.x as i64 + dx) as i32, y: (center.y as i64 + dy) as i32 }
    }
}

/// Whether the four entries for the axes are the axes themselves.
fn axes_are_ok(table: &Vec<Point>) -> (ok: bool)
    requires
        table@.len() == FULL_TURN,
    ensures
        ok == axes_ok(table@),
{
    let east = table[0];
    let south = table[QUARTER_TURN as usize];
    let west = table[HALF_TURN as usize];
    let north = table[3 * QUARTER_TURN as usize];
    east.x == UNIT && east.y == 0 && south.x == 0 && south.y == UNIT && west.x == -UNIT && west.y
        == 0 && north.x == 0 && north.y == -UNIT
}

/// Whether the entry for minute `a` and the one after it lie one step apart
/// in the direction of the turn.
fn step_is_ok(table: &Vec<Point>, a: usize) -> (ok: bool)
    requires
        table@.len() == FULL_TURN,
        a < FULL_TURN,
        forall|k: int| 0 <= k < FULL_TURN ==> entry_ok(#[trigger] table@[k]),
    ensures
        ok == step_ok(table@, a as int),
{
    let after: usize = if a + 1 == FULL_TURN as usize { 0 } else { a + 1 };
    let e = table[a];
    let n = table[after];
    assert(entry_ok(table@[a as int]) && entry_ok(table@[after as int]));
    let dx: i64 = n.x as i64 - e.x as i64;
    let dy: i64 = n.y as i64 - e.y as i64;
    assert(0 <= dx * dx <= 0x2000_0000 * 0x2000_0000 && 0 <= dy * dy <= 0x2000_0000 * 0x2000_0000)
        by (nonlinear_arith)
        requires
            -0x2000_0000 <= dx <= 0x2000_0000,
            -0x2000_0000 <= dy <= 0x2000_0000,
    ;
    let length: i64 = dx * dx + dy * dy;
    let x_turns = if a < HALF_TURN as usize { n.x <= e.x } else { n.x >= e.x };
    let y_turns = if a < QUARTER_TURN as usize || a >= 3 * QUARTER_TURN as usize {
        n.y >= e.y
    } else {
        n.y <= e.y
    };
    x_turns && y_turns && STEP_LEAST <= length && length <= STEP_MOST
}

/// Whether `e` can stand for a direction.
fn entry_is_ok(e: Point) -> (ok: bool)
    ensures
        ok == entry_ok(e),
{
    if e.x < -UNIT || e.x > UNIT || e.y < -UNIT || e.y > UNIT {
        return false;
    }
    assert(0 <= e.x * e.x <= 0x1000_0000 * 0x1000_0000 && 0 <= e.y * e.y <= 0x1000_0000
        * 0x1000_0000) by (nonlinear_arith)
        requires
            -0x1000_0000 <= e.x <= 0x1000_0000,
            -0x1000_0000 <= e.y <= 0x1000_0000,
    ;
    let norm: i64 = (e.x as i64) * (e.x as i64) + (e.y as i64) * (e.y as i64);
    let unit: i64 = UNIT as i64;
    assert((unit - 1) * (unit - 1) == 72057593501057025 && (unit + 1) * (unit + 1)
        == 72057594574798849) by (nonlinear_arith)
        requires
            unit == 268435456,
    ;
    let least: i64 = (unit - 1) * (unit - 1);
    let most: i64 = (unit + 1) * (unit + 1);
    least <= norm && norm <= most
}

} // verus!
