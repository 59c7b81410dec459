//! Integer plane geometry: positions, offsets between them, and headings in
//! whole degrees with their fixed-point facing vectors.
use vstd::prelude::*;

verus! {

/// Length units in one world unit: positions are kept in thousandths.
pub const UNIT: i64 = 1000;

/// Length of a facing vector: cosine and sine are kept in ten-thousandths.
pub const DIRECTION_SCALE: i64 = 10000;

/// Degrees in a full turn.
pub const FULL_TURN: u32 = 360;

/// `DIRECTION_SCALE * cos(d°)`, rounded, for `d` in `0..=90`.
pub open spec fn quarter_cos() -> Seq<i64> {
    seq![
        10000, 9998, 9994, 9986, 9976, 9962, 9945, 9925, 9903, 9877, 9848, 9816, 9781, 9744,
        9703, 9659, 9613, 9563, 9511, 9455, 9397, 9336, 9272, 9205, 9135, 9063, 8988, 8910,
        8829, 8746, 8660, 8572, 8480, 8387, 8290, 8192, 8090, 7986, 7880, 7771, 7660, 7547,
        7431, 7314, 7193, 7071, 6947, 6820, 6691, 6561, 6428, 6293, 6157, 6018, 5878, 5736,
        5592, 5446, 5299, 5150, 5000, 4848, 4695, 4540, 4384, 4226, 4067, 3907, 3746, 3584,
        3420, 3256, 3090, 2924, 2756, 2588, 2419, 2250, 2079, 1908, 1736, 1564, 1392, 1219,
        1045, 872, 698, 523, 349, 175, 0,
    ]
}

/// The cosine entry for `d` degrees, `d` in `0..=90`.
fn cos_entry(d: u32) -> (r: i64)
    requires
        d <= 90,
    ensures
        r == quarter_cos()[d as int],
{
    let table: [i64; 91] = [
        10000, 9998, 9994, 9986, 9976, 9962, 9945, 9925, 9903, 9877, 9848, 9816, 9781, 9744,
        9703, 9659, 9613, 9563, 9511, 9455, 9397, 9336, 9272, 9205, 9135, 9063, 8988, 8910,
        8829, 8746, 8660, 8572, 8480, 8387, 8290, 8192, 8090, 7986, 7880, 7771, 7660, 7547,
        7431, 7314, 7193, 7071, 6947, 6820, 6691, 6561, 6428, 6293, 6157, 6018, 5878, 5736,
        5592, 5446, 5299, 5150, 5000, 4848, 4695, 4540, 4384, 4226, 4067, 3907, 3746, 3584,
        3420, 3256, 3090, 2924, 2756, 2588, 2419, 2250, 2079, 1908, 1736, 1564, 1392, 1219,
        1045, 872, 698, 523, 349, 175, 0,
    ];
    assert(table@ == quarter_cos());
    table[d as usize]
}

} // verus!

verus! {

/// A position in the plane, in length units.
#[derive(Clone, Copy, Debug, PartialEq, Eq)]
pub struct Point {
    pub x: i32,
    pub y: i32,
}

/// A vector between two positions, in length units.
#[derive(Clone, Copy, Debug, PartialEq, Eq)]
pub struct Offset {
    pub x: i64,
    pub y: i64,
}

impl Point {
    /// The vector from `self` to `target`.
    pub fn offset_to(&self, target: &Point) -> (r: Offset)
        ensures
            r.x == target.x - self.x,
            r.y == target.y - self.y,
    {
        Offset { x: target.x as i64 - self.x as i64, y: target.y as i64 - self.y as i64 }
    }
}

/// `|v|` as an unsigned value.
fn magnitude(v: i64) -> (r: u128)
    ensures
        r == if v < 0 { -v } else { v as int },
{
    if v < 0 {
        (-(v as i128)) as u128
    } else {
        v as u128
    }
}

impl Offset {
    /// Squared Euclidean length.
    pub open spec fn len2(self) -> int {
        self.x * self.x + self.y * self.y
    }

    /// Squared Euclidean length.
    pub fn length_squared(&self) -> (r: u128)
        ensures
            r == self.len2(),
            r <= 0x8000_0000_0000_0000_0000_0000_0000_0000,
    {
        let ax = magnitude(self.x);
        let ay = magnitude(self.y);
        assert(ax * ax <= 0x4000_0000_0000_0000_0000_0000_0000_0000) by (nonlinear_arith)
            requires ax <= 0x8000_0000_0000_0000;
        assert(ay * ay <= 0x4000_0000_0000_0000_0000_0000_0000_0000) by (nonlinear_arith)
            requires ay <= 0x8000_0000_0000_0000;
        assert(ax * ax == self.x * self.x) by (nonlinear_arith)
            requires ax == self.x || ax == -self.x;
        assert(ay * ay == self.y * self.y) by (nonlinear_arith)
            requires ay == self.y || ay == -self.y;
        ax * ax + ay * ay
    }

    /// Whether the offset is strictly shorter than `radius`.
    pub fn shorter_than(&self, radius: u64) -> (r: bool)
        ensures
            r == (self.len2() < radius * radius),
    {
        let ax = magnitude(self.x);
        let ay = magnitude(self.y);
        assert(ax * ax <= 0x4000_0000_0000_0000_0000_0000_0000_0000) by (nonlinear_arith)
            requires ax <= 0x8000_0000_0000_0000;
        assert(ay * ay <= 0x4000_0000_0000_0000_0000_0000_0000_0000) by (nonlinear_arith)
            requires ay <= 0x8000_0000_0000_0000;
        assert(radius * radius < 0x1_0000_0000_0000_0000_0000_0000_0000_0000) by (nonlinear_arith)
            requires radius < 0x1_0000_0000_0000_0000;
        assert(ax * ax == self.x * self.x) by (nonlinear_arith)
            requires ax == self.x || ax == -self.x;
        assert(ay * ay == self.y * self.y) by (nonlinear_arith)
            requires ay == self.y || ay == -self.y;
        let r2 = radius as u128 * radius as u128;
        ax * ax + ay * ay < r2
    }
}

/// The first coordinate of the facing vector for heading `h` (degrees,
/// counter-clockwise from the x axis, taken modulo a full turn).
pub open spec fn facing_x(h: int) -> int {
    let a = h % 360;
    if a <= 90 {
        quarter_cos()[a] as int
    } else if a <= 180 {
        -quarter_cos()[180 - a]
    } else if a <= 270 {
        -quarter_cos()[a - 180]
    } else {
        quarter_cos()[360 - a] as int
    }
}

/// The second coordinate of the facing vector for heading `h`.
pub open spec fn facing_y(h: int) -> int {
    let a = h % 360;
    if a <= 90 {
        quarter_cos()[90 - a] as int
    } else if a <= 180 {
        quarter_cos()[a - 90] as int
    } else if a <= 270 {
        -quarter_cos()[270 - a]
    } else {
        -quarter_cos()[a - 270]
    }
}

/// Dot product of the facing vector for `h` with `(x, y)`.
pub open spec fn facing_dot(h: int, x: int, y: int) -> int {
    facing_x(h) * x + facing_y(h) * y
}

/// Counter-clockwise angle from heading `from` to heading `to`, in `0..360`.
pub open spec fn ccw_gap(from: int, to: int) -> int {
    (to - from) % 360
}

/// The signed turn, in `-179..=180`, that takes `from` to `to` the short way.
pub open spec fn shortest_turn(from: int, to: int) -> int {
    let d = ccw_gap(from, to);
    if d <= 180 {
        d
    } else {
        d - 360
    }
}

/// The angle between two headings, in `0..=180`.
pub open spec fn angle_between(a: int, b: int) -> int {
    let d = ccw_gap(a, b);
    if d <= 180 {
        d
    } else {
        360 - d
    }
}

/// Heading `h` after turning by `turn` degrees, in `0..360`.
pub open spec fn turned(h: int, turn: int) -> int {
    (h + turn) % 360
}

/// The shortest turn from `from` towards `to`, limited to `max` degrees
/// either way.
pub open spec fn bounded_turn(from: int, to: int, max: int) -> int {
    let t = shortest_turn(from, to);
    if t > max {
        max
    } else if t < -max {
        -max
    } else {
        t
    }
}

/// The wall whose normal a bounce reflects across.
#[derive(Clone, Copy, Debug, PartialEq, Eq)]
pub enum Axis {
    X,
    Y,
}

/// Heading `h` mirrored by a wall with normal `axis`.
pub open spec fn reflected(h: int, axis: Axis) -> int {
    let a = h % 360;
    match axis {
        Axis::X => (540 - a) % 360,
        Axis::Y => (360 - a) % 360,
    }
}

/// A facing direction: a whole-degree heading, counter-clockwise from the
/// x axis, read modulo a full turn.
#[derive(Clone, Copy, Debug, PartialEq, Eq)]
pub struct Direction {
    pub heading: u32,
}

/// `a % 360` for an unsigned value.
fn reduce(a: u64) -> (r: u32)
    ensures
        r == a % 360,
        r < 360,
{
    (a % 360) as u32
}

impl Direction {
    /// The heading in `0..360`.
    pub open spec fn degrees(self) -> int {
        self.heading as int % 360
    }

    /// The heading in `0..360`.
    pub fn normalized(&self) -> (r: u32)
        ensures
            r == self.degrees(),
    {
        reduce(self.heading as u64)
    }

    /// The fixed-point facing vector, of length about `DIRECTION_SCALE`.
    pub fn vector(&self) -> (r: Offset)
        ensures
            r.x == facing_x(self.heading as int),
            r.y == facing_y(self.heading as int),
    {
        let a = self.normalized();
        if a <= 90 {
            Offset { x: cos_entry(a), y: cos_entry(90 - a) }
        } else if a <= 180 {
            Offset { x: -cos_entry(180 - a), y: cos_entry(a - 90) }
        } else if a <= 270 {
            Offset { x: -cos_entry(a - 180), y: -cos_entry(270 - a) }
        } else {
            Offset { x: cos_entry(360 - a), y: -cos_entry(a - 270) }
        }
    }

    /// Turns by `turn` degrees, counter-clockwise when positive.
    pub fn rotate(&mut self, turn: i32)
        ensures
            final(self).heading == turned(old(self).heading as int, turn as int),
    {
        let h = self.normalized();
        let ghost big_h = old(self).heading as int;
        if turn >= 0 {
            let r = reduce(turn as u64);
            let w = reduce(h as u64 + r as u64);
            proof {
                let t = turn as int;
                vstd::arithmetic::div_mod::lemma_fundamental_div_mod(big_h, 360);
                vstd::arithmetic::div_mod::lemma_fundamental_div_mod(t, 360);
                vstd::arithmetic::div_mod::lemma_fundamental_div_mod(h + r, 360);
                let a = big_h / 360;
                let b = t / 360;
                let p = (h + r) / 360;
                assert(big_h + t == 360 * (a + b + p) + w);
                vstd::arithmetic::div_mod::lemma_fundamental_div_mod_converse(big_h + t, 360, a + b + p, w as int);
            }
            self.heading = w;
        } else {
            let r = reduce((-(turn as i64)) as u64);
            let w = reduce(h as u64 + 360 - r as u64);
            proof {
                let m = -(turn as int);
                vstd::arithmetic::div_mod::lemma_fundamental_div_mod(big_h, 360);
                vstd::arithmetic::div_mod::lemma_fundamental_div_mod(m, 360);
                vstd::arithmetic::div_mod::lemma_fundamental_div_mod(h + 360 - r, 360);
                let a = big_h / 360;
                let b = m / 360;
                let p = (h + 360 - r) / 360;
                assert(big_h - m == 360 * (a - b - 1 + p) + w);
                vstd::arithmetic::div_mod::lemma_fundamental_div_mod_converse(big_h - m, 360, a - b - 1 + p, w as int);
            }
            self.heading = w;
        }
    }

    /// The angle between this heading and `target`, in `0..=180`.
    pub fn angle_to(&self, target: u32) -> (r: u32)
        ensures
            r == angle_between(self.heading as int, target as int),
    {
        let d = ccw_gap_of(self.heading, target);
        if d <= 180 {
            d
        } else {
            360 - d
        }
    }

    /// The turn towards `target` along the shorter arc, at most `max`
    /// degrees either way.
    pub fn turn_toward(&self, target: u32, max: u32) -> (r: i32)
        requires
            max <= 180,
        ensures
            r == bounded_turn(self.heading as int, target as int, max as int),
    {
        let d = ccw_gap_of(self.heading, target);
        let t: i32 = if d <= 180 {
            d as i32
        } else {
            d as i32 - 360
        };
        if t > max as i32 {
            max as i32
        } else if t < -(max as i32) {
            -(max as i32)
        } else {
            t
        }
    }

    /// The turn, along the shorter arc, that a bounce off a wall with normal
    /// `axis` applies: the heading mirrored across that wall.
    pub fn bounce_rotation(&self, axis: Axis) -> (r: i32)
        ensures
            r == shortest_turn(self.heading as int, reflected(self.heading as int, axis)),
            turned(self.heading as int, r as int) == reflected(self.heading as int, axis),
    {
        let a = self.normalized();
        let mirrored: u32 = match axis {
            Axis::X => reduce(540 - a as u64),
            Axis::Y => reduce(360 - a as u64),
        };
        let d = ccw_gap_of(self.heading, mirrored);
        proof {
            lemma_turn_reaches(self.heading as int, mirrored as int);
        }
        if d <= 180 {
            d as i32
        } else {
            d as i32 - 360
        }
    }

    /// Mirrors the heading across a wall with normal `axis` and returns the
    /// turn that did it.
    pub fn bounce_rotate(&mut self, axis: Axis) -> (r: i32)
        ensures
            r == shortest_turn(old(self).heading as int, reflected(old(self).heading as int, axis)),
            final(self).heading == reflected(old(self).heading as int, axis),
    {
        let r = self.bounce_rotation(axis);
        self.rotate(r);
        r
    }
}

/// `ccw_gap(from, to)` for unsigned headings.
fn ccw_gap_of(from: u32, to: u32) -> (r: u32)
    ensures
        r == ccw_gap(from as int, to as int),
        r < 360,
{
    let f = reduce(from as u64);
    let t = reduce(to as u64);
    proof {
        vstd::arithmetic::div_mod::lemma_fundamental_div_mod(from as int, 360);
        vstd::arithmetic::div_mod::lemma_fundamental_div_mod(to as int, 360);
        vstd::arithmetic::div_mod::lemma_fundamental_div_mod(to - from, 360);
        vstd::arithmetic::div_mod::lemma_fundamental_div_mod(t + 360 - f, 360);
    }
    reduce(t as u64 + 360 - f as u64)
}

/// Turning the short way from `from` reaches `to` exactly.
pub proof fn lemma_turn_reaches(from: int, to: int)
    requires
        0 <= to < 360,
    ensures
        turned(from, shortest_turn(from, to)) == to,
{
    vstd::arithmetic::div_mod::lemma_fundamental_div_mod(to - from, 360);
    let q = (to - from) / 360;
    let d = ccw_gap(from, to);
    if d <= 180 {
        vstd::arithmetic::div_mod::lemma_fundamental_div_mod_converse(from + d, 360, -q, to);
    } else {
        vstd::arithmetic::div_mod::lemma_fundamental_div_mod_converse(
            from + d - 360,
            360,
            -q - 1,
            to,
        );
    }
}

/// A bounce mirrors the facing vector across the wall: the component along
/// the wall's normal changes sign, the other is kept, so its length (and
/// with it the distance covered per tick) is unchanged.
pub proof fn lemma_bounce_keeps_length(h: int, axis: Axis)
    ensures
        axis == Axis::X ==> facing_x(reflected(h, axis)) == -facing_x(h)
            && facing_y(reflected(h, axis)) == facing_y(h),
        axis == Axis::Y ==> facing_x(reflected(h, axis)) == facing_x(h)
            && facing_y(reflected(h, axis)) == -facing_y(h),
        facing_x(reflected(h, axis)) * facing_x(reflected(h, axis)) + facing_y(reflected(h, axis))
            * facing_y(reflected(h, axis)) == facing_x(h) * facing_x(h) + facing_y(h) * facing_y(h),
{
    let a = h % 360;
    let r = reflected(h, axis);
    assert(quarter_cos()[0] == 10000 && quarter_cos()[90] == 0);
    match axis {
        Axis::X => {
            if a <= 180 {
                vstd::arithmetic::div_mod::lemma_fundamental_div_mod_converse(540 - a, 360, 1, 180 - a);
            } else {
                vstd::arithmetic::div_mod::lemma_fundamental_div_mod_converse(540 - a, 360, 0, 540 - a);
            }
        },
        Axis::Y => {
            if a == 0 {
                vstd::arithmetic::div_mod::lemma_fundamental_div_mod_converse(360 - a, 360, 1, 0);
            } else {
                vstd::arithmetic::div_mod::lemma_fundamental_div_mod_converse(360 - a, 360, 0, 360 - a);
            }
        },
    }
    vstd::arithmetic::div_mod::lemma_fundamental_div_mod_converse(r, 360, 0, r);
    let (x, y) = (facing_x(h), facing_y(h));
    assert((-x) * (-x) == x * x && (-y) * (-y) == y * y) by (nonlinear_arith);
}

/// A turn towards a target heading, limited to `max` degrees, closes the
/// angle to it by `max`, or entirely when it was smaller: the angle
/// strictly decreases whenever it was not already zero.
pub proof fn lemma_turn_toward_closes_angle(h: int, target: int, max: int)
    requires
        0 < max <= 180,
    ensures
        angle_between(turned(h, bounded_turn(h, target, max)), target) == angle_between(h, target)
            - (if angle_between(h, target) < max {
            angle_between(h, target)
        } else {
            max
        }),
        angle_between(h, target) > 0 ==> angle_between(turned(h, bounded_turn(h, target, max)), target)
            < angle_between(h, target),
{
    let d = ccw_gap(h, target);
    let t = bounded_turn(h, target, max);
    let h2 = turned(h, t);
    vstd::arithmetic::div_mod::lemma_fundamental_div_mod(target - h, 360);
    vstd::arithmetic::div_mod::lemma_fundamental_div_mod(h + t, 360);
    let q = (target - h) / 360;
    let p = (h + t) / 360;
    // target - h2 = (target - h) - t + 360 * p = 360 * (q + p) + d - t
    if d <= 180 {
        vstd::arithmetic::div_mod::lemma_fundamental_div_mod_converse(target - h2, 360, q + p, d - t);
    } else if d - t >= 360 {
        vstd::arithmetic::div_mod::lemma_fundamental_div_mod_converse(target - h2, 360, q + p + 1, d - t - 360);
    } else {
        vstd::arithmetic::div_mod::lemma_fundamental_div_mod_converse(target - h2, 360, q + p, d - t);
    }
}

/// Inputs small enough for `heading_toward` to compute its dot products.
pub open spec fn fits_heading_search(x: int, y: int) -> bool {
    -0x1_0000_0000_0000_0000_0000_0000_0000 <= x <= 0x1_0000_0000_0000_0000_0000_0000_0000
        && -0x1_0000_0000_0000_0000_0000_0000_0000 <= y <= 0x1_0000_0000_0000_0000_0000_0000_0000
}

/// The heading whose facing vector points most nearly along `(x, y)`: the
/// least heading at which the facing vector's dot product with it is largest.
pub open spec fn is_heading_toward(h: int, x: int, y: int) -> bool {
    &&& 0 <= h < 360
    &&& forall|k: int| 0 <= k < 360 ==> #[trigger] facing_dot(k, x, y) <= facing_dot(h, x, y)
    &&& forall|k: int| 0 <= k < h ==> #[trigger] facing_dot(k, x, y) < facing_dot(h, x, y)
}

/// The heading pointing most nearly along `(x, y)`.
pub open spec fn toward(x: int, y: int) -> int {
    choose|h: int| is_heading_toward(h, x, y)
}

/// At most one heading points most nearly along a vector.
pub proof fn lemma_heading_toward_unique(h1: int, h2: int, x: int, y: int)
    requires
        is_heading_toward(h1, x, y),
        is_heading_toward(h2, x, y),
    ensures
        h1 == h2,
{
    if h1 < h2 {
        assert(facing_dot(h1, x, y) < facing_dot(h2, x, y));
    } else if h2 < h1 {
        assert(facing_dot(h2, x, y) < facing_dot(h1, x, y));
    }
}

/// The heading in `0..360` pointing most nearly along `(x, y)`.
pub fn heading_toward(x: i128, y: i128) -> (r: u32)
    requires
        fits_heading_search(x as int, y as int),
    ensures
        is_heading_toward(r as int, x as int, y as int),
        r == toward(x as int, y as int),
{
    let mut best: u32 = 0;
    let mut best_dot: i128 = dot_with(0, x, y);
    let mut k: u32 = 1;
    while k < 360
        invariant
            fits_heading_search(x as int, y as int),
            1 <= k <= 360,
            best < k,
            best_dot == facing_dot(best as int, x as int, y as int),
            forall|j: int| 0 <= j < k ==> #[trigger] facing_dot(j, x as int, y as int) <= facing_dot(best as int, x as int, y as int),
            forall|j: int| 0 <= j < best ==> #[trigger] facing_dot(j, x as int, y as int) < facing_dot(best as int, x as int, y as int),
        decreases 360 - k,
    {
        let d = dot_with(k, x, y);
        if d > best_dot {
            best = k;
            best_dot = d;
        }
        k = k + 1;
    }
    proof {
        let t = toward(x as int, y as int);
        assert(is_heading_toward(best as int, x as int, y as int));
        lemma_heading_toward_unique(t, best as int, x as int, y as int);
    }
    best
}

/// `facing_dot(h, x, y)`, computed.
fn dot_with(h: u32, x: i128, y: i128) -> (r: i128)
    requires
        fits_heading_search(x as int, y as int),
    ensures
        r == facing_dot(h as int, x as int, y as int),
{
    let v = Direction { heading: h }.vector();
    proof {
        lemma_facing_bounded(h as int);
        let fx = facing_x(h as int);
        let fy = facing_y(h as int);
        assert(-0x1_0000_0000_0000_0000_0000_0000_0000 * 10000 <= fx * x <= 0x1_0000_0000_0000_0000_0000_0000_0000 * 10000) by (nonlinear_arith)
            requires -10000 <= fx <= 10000, -0x1_0000_0000_0000_0000_0000_0000_0000 <= x <= 0x1_0000_0000_0000_0000_0000_0000_0000;
        assert(-0x1_0000_0000_0000_0000_0000_0000_0000 * 10000 <= fy * y <= 0x1_0000_0000_0000_0000_0000_0000_0000 * 10000) by (nonlinear_arith)
            requires -10000 <= fy <= 10000, -0x1_0000_0000_0000_0000_0000_0000_0000 <= y <= 0x1_0000_0000_0000_0000_0000_0000_0000;
    }
    v.x as i128 * x + v.y as i128 * y
}

/// Facing vector coordinates lie within `[-DIRECTION_SCALE, DIRECTION_SCALE]`.
pub proof fn lemma_facing_bounded(h: int)
    ensures
        -10000 <= facing_x(h) <= 10000,
        -10000 <= facing_y(h) <= 10000,
{
    assert forall|i: int| 0 <= i <= 90 implies 0 <= #[trigger] quarter_cos()[i] <= 10000 by {}
}

} // verus!

verus! {

impl Point {
    /// Whether `other` lies strictly within `radius` of `self`.
    pub open spec fn within(self, other: Point, radius: u64) -> bool {
        (other.x - self.x) * (other.x - self.x) + (other.y - self.y) * (other.y - self.y) < radius
            * radius
    }

    /// Whether `other` lies strictly within `radius` of `self`.
    pub fn is_within(&self, other: &Point, radius: u64) -> (r: bool)
        ensures
            r == self.within(*other, radius),
    {
        self.offset_to(other).shorter_than(radius)
    }
}

/// Whether `s` is the integer square root of `n`: `s² <= n < (s + 1)²`.
pub open spec fn is_sqrt_floor(s: int, n: int) -> bool {
    0 <= s && s * s <= n && n < (s + 1) * (s + 1)
}

/// The integer square root of `n`, the largest `s` with `s² <= n`.
pub open spec fn sqrt_floor(n: int) -> int {
    choose|s: int| is_sqrt_floor(s, n)
}

/// A number has at most one integer square root.
pub proof fn lemma_sqrt_floor_unique(a: int, b: int, n: int)
    requires
        is_sqrt_floor(a, n),
        is_sqrt_floor(b, n),
    ensures
        a == b,
{
    if a < b {
        assert((a + 1) * (a + 1) <= b * b) by (nonlinear_arith)
            requires 0 <= a, a + 1 <= b;
    } else if b < a {
        assert((b + 1) * (b + 1) <= a * a) by (nonlinear_arith)
            requires 0 <= b, b + 1 <= a;
    }
}

/// The integer square root of `n`.
pub fn sqrt_floor_of(n: u128) -> (r: u128)
    requires
        n <= 0x8000_0000_0000_0000_0000_0000_0000_0000,
    ensures
        is_sqrt_floor(r as int, n as int),
        r == sqrt_floor(n as int),
        r < 0x1_0000_0000_0000_0000,
{
    let mut lo: u128 = 0;
    let mut hi: u128 = 0x1_0000_0000_0000_0000;
    assert(hi * hi > 0x8000_0000_0000_0000_0000_0000_0000_0000) by (nonlinear_arith)
        requires hi == 0x1_0000_0000_0000_0000int;
    while lo + 1 < hi
        invariant
            n <= 0x8000_0000_0000_0000_0000_0000_0000_0000,
            lo < hi <= 0x1_0000_0000_0000_0000,
            lo * lo <= n,
            n < hi * hi,
        decreases hi - lo,
    {
        let mid = lo + (hi - lo) / 2;
        assert(mid * mid < 0x1_0000_0000_0000_0000_0000_0000_0000_0000) by (nonlinear_arith)
            requires 0 <= mid < 0x1_0000_0000_0000_0000int;
        if mid * mid <= n {
            lo = mid;
        } else {
            hi = mid;
        }
    }
    proof {
        assert(is_sqrt_floor(lo as int, n as int));
        lemma_sqrt_floor_unique(sqrt_floor(n as int), lo as int, n as int);
    }
    lo
}

} // verus!
