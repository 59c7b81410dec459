//! Ants: their state, the actions they take, how they move and how the
//! world's walls turn them back.
use crate::common::{Age, Food, Pheromone, Player};
use crate::geometry::{
    facing_x, facing_y, reflected, Axis, Direction, Point, DIRECTION_SCALE,
};
use crate::world::{valid_extent, WorldSize, MARGIN};
use vstd::prelude::*;

verus! {

/// Speed in length units per second.
#[derive(Clone, Copy, Debug, PartialEq, Eq)]
pub struct Speed(pub u32);

/// How far an ant sees, in length units.
#[derive(Clone, Copy, Debug, PartialEq, Eq)]
pub struct Vision {
    pub distance: u64,
}

/// What an ant is able to do.
#[derive(Clone, Copy, Debug, PartialEq, Eq)]
pub struct Abilities {
    pub vision: Vision,
    /// Top speed, in length units per second.
    pub speed: u32,
}

/// What an ant carries.
#[derive(Clone, Copy, Debug, PartialEq, Eq)]
pub enum Cargo {
    Food { typ: Food, amount: u64 },
    Empty,
}

impl Cargo {
    /// A load is never empty.
    pub open spec fn wf(self) -> bool {
        self matches Cargo::Food { amount, .. } ==> amount > 0
    }
}

/// What a pickup asks for.
#[derive(Clone, Copy, Debug, PartialEq, Eq)]
pub enum CargoType {
    Food(Food),
}

/// The one thing an ant does in a tick.
#[derive(Clone, Copy, Debug, PartialEq, Eq)]
pub enum AntAction {
    /// Turn by this many degrees, counter-clockwise when positive.
    Rotate(i32),
    /// Leave a trail marker of this kind where the ant stands.
    DropPheromone(Pheromone),
    /// Set the speed, in length units per second.
    Accelerate(u32),
    /// Put down what is carried.
    DropCargo,
    /// Take up to this quantity from a resource node in reach.
    PickupCargo(CargoType, u64),
}

/// A forager.
#[derive(Clone, Copy, Debug, PartialEq, Eq)]
pub struct Ant {
    pub position: Point,
    pub direction: Direction,
    pub speed: Speed,
    pub age: Age,
    pub player: Player,
    pub cargo: Cargo,
    pub abilities: Abilities,
}

/// `n / d` rounded towards zero.
pub open spec fn div_toward_zero(n: int, d: int) -> int {
    if n >= 0 {
        n / d
    } else {
        -((-n) / d)
    }
}

/// Distance covered along one axis in `elapsed` milliseconds, for a facing
/// component `f` and a speed in length units per second.
pub open spec fn step_along(f: int, speed: int, elapsed: int) -> int {
    div_toward_zero(f * speed * elapsed, DIRECTION_SCALE * 1000)
}

/// `v` held within the range of `i32`.
pub open spec fn clamp_i32(v: int) -> int {
    if v < i32::MIN {
        i32::MIN as int
    } else if v > i32::MAX {
        i32::MAX as int
    } else {
        v
    }
}

/// One coordinate after a move along one axis.
fn moved_coord(c: i32, f: i64, speed: u32, elapsed: u32) -> (r: i32)
    requires
        -DIRECTION_SCALE <= f <= DIRECTION_SCALE,
    ensures
        r == clamp_i32(c + step_along(f as int, speed as int, elapsed as int)),
{
    let mag: u128 = if f < 0 {
        (-f) as u128
    } else {
        f as u128
    };
    assert(mag * speed <= 10000 * 0xffff_ffff) by (nonlinear_arith)
        requires mag <= 10000, speed <= 0xffff_ffffu32;
    assert(mag * speed * elapsed <= 10000 * 0xffff_ffff * 0xffff_ffff) by (nonlinear_arith)
        requires mag * speed <= 10000 * 0xffff_ffff, elapsed <= 0xffff_ffffu32;
    let n: u128 = mag * speed as u128 * elapsed as u128;
    let q: u128 = n / 10_000_000;
    proof {
        assert(f * speed * elapsed == if f < 0 { -(mag * speed * elapsed) } else { mag * speed * elapsed }) by (nonlinear_arith)
            requires mag == (if f < 0 { -f } else { f as int });
        assert(q <= 10000 * 0xffff_ffff * 0xffff_ffff / 10_000_000);
    }
    let s: i128 = if f < 0 {
        c as i128 - q as i128
    } else {
        c as i128 + q as i128
    };
    if s < i32::MIN as i128 {
        i32::MIN
    } else if s > i32::MAX as i128 {
        i32::MAX
    } else {
        s as i32
    }
}

/// Whether coordinate `c` lies past the margin of an extent `e`.
pub open spec fn past_low(c: int, e: int) -> bool {
    2 * c < -e + 2 * MARGIN
}

pub open spec fn past_high(c: int, e: int) -> bool {
    2 * c > e - 2 * MARGIN
}

/// Coordinate `c` after confinement to an extent `e`: one past a margin is
/// mirrored about the wall plus margin.
pub open spec fn confined(c: int, e: int) -> int {
    if past_low(c, e) {
        -c - e + 2 * MARGIN
    } else if past_high(c, e) {
        -c + e - 2 * MARGIN
    } else {
        c
    }
}

/// `confined(c, e)`, computed.
fn confine_coord(c: i32, e: u32) -> (r: i32)
    requires
        valid_extent(e as int),
    ensures
        r == confined(c as int, e as int),
{
    let c2 = 2 * c as i64;
    if c2 < -(e as i64) + 2 * MARGIN {
        (-(c as i64) - e as i64 + 2 * MARGIN) as i32
    } else if c2 > e as i64 - 2 * MARGIN {
        (-(c as i64) + e as i64 - 2 * MARGIN) as i32
    } else {
        c
    }
}

impl Ant {
    /// A load is never empty.
    pub open spec fn wf(self) -> bool {
        self.cargo.wf()
    }

    /// Position after moving for `elapsed` milliseconds along the facing
    /// vector at the current speed (each coordinate held within `i32`).
    pub open spec fn moved(self, elapsed: u32) -> Point {
        Point {
            x: clamp_i32(
                self.position.x + step_along(
                    facing_x(self.direction.heading as int),
                    self.speed.0 as int,
                    elapsed as int,
                ),
            ) as i32,
            y: clamp_i32(
                self.position.y + step_along(
                    facing_y(self.direction.heading as int),
                    self.speed.0 as int,
                    elapsed as int,
                ),
            ) as i32,
        }
    }

    /// Advances the position by direction × speed × elapsed time.
    pub fn movement(&mut self, elapsed: u32)
        ensures
            *final(self) == (Ant { position: old(self).moved(elapsed), ..*old(self) }),
    {
        let v = self.direction.vector();
        proof {
            crate::geometry::lemma_facing_bounded(self.direction.heading as int);
        }
        let x = moved_coord(self.position.x, v.x, self.speed.0, elapsed);
        let y = moved_coord(self.position.y, v.y, self.speed.0, elapsed);
        self.position = Point { x, y };
    }

    /// Heading after confinement to `size`: mirrored across each wall
    /// whose margin the ant is past.
    pub open spec fn confined_heading(self, size: WorldSize) -> int {
        let h0 = self.direction.heading as int;
        let x = self.position.x as int;
        let y = self.position.y as int;
        let h1 = if past_low(x, size.0 as int) || past_high(x, size.0 as int) {
            reflected(h0, Axis::X)
        } else {
            h0
        };
        if past_low(y, size.1 as int) || past_high(y, size.1 as int) {
            reflected(h1, Axis::Y)
        } else {
            h1
        }
    }

    /// Turns the ant back from the walls: on each axis where it is past a
    /// margin, its heading is mirrored across that wall and the coordinate
    /// mirrored about the wall plus margin.
    pub fn confine(&mut self, size: &WorldSize)
        requires
            size.wf(),
        ensures
            final(self).position.x == confined(old(self).position.x as int, size.0 as int),
            final(self).position.y == confined(old(self).position.y as int, size.1 as int),
            final(self).direction.heading == old(self).confined_heading(*size),
            final(self).speed == old(self).speed,
            final(self).age == old(self).age,
            final(self).player == old(self).player,
            final(self).cargo == old(self).cargo,
            final(self).abilities == old(self).abilities,
    {
        let width = size.0;
        let height = size.1;
        let x2 = 2 * self.position.x as i64;
        let y2 = 2 * self.position.y as i64;
        if x2 < -(width as i64) + 2 * MARGIN || x2 > width as i64 - 2 * MARGIN {
            self.direction.bounce_rotate(Axis::X);
        }
        if y2 < -(height as i64) + 2 * MARGIN || y2 > height as i64 - 2 * MARGIN {
            self.direction.bounce_rotate(Axis::Y);
        }
        self.position = Point {
            x: confine_coord(self.position.x, width),
            y: confine_coord(self.position.y, height),
        };
    }
}

/// The ant after the tick's motion stages: moved for `elapsed`
/// milliseconds, confined to `size`, and `elapsed` milliseconds older.
pub open spec fn settled(a: Ant, elapsed: u32, size: WorldSize) -> Ant {
    let m = Ant { position: a.moved(elapsed), ..a };
    Ant {
        position: Point {
            x: confined(m.position.x as int, size.0 as int) as i32,
            y: confined(m.position.y as int, size.1 as int) as i32,
        },
        direction: Direction { heading: m.confined_heading(size) as u32 },
        age: Age(m.age.after(elapsed)),
        ..m
    }
}

/// After confinement, a coordinate that was no further out than one
/// extent, less twice the margin, past the centre lies within the world:
/// `-e/2 <= c <= e/2`.
pub proof fn lemma_confined_within(c: int, e: int)
    requires
        valid_extent(e),
        -3 * e + 4 * MARGIN <= 2 * c <= 3 * e - 4 * MARGIN,
    ensures
        -e <= 2 * confined(c, e) <= e,
{
}

/// An ant within `size`, stretched by one extent less twice the margin on
/// every side, lies within `size` once confined.
pub proof fn lemma_ant_confined_within(a: Ant, size: WorldSize)
    requires
        size.wf(),
        -3 * size.0 + 4 * MARGIN <= 2 * a.position.x <= 3 * size.0 - 4 * MARGIN,
        -3 * size.1 + 4 * MARGIN <= 2 * a.position.y <= 3 * size.1 - 4 * MARGIN,
    ensures
        -size.0 <= 2 * confined(a.position.x as int, size.0 as int) <= size.0,
        -size.1 <= 2 * confined(a.position.y as int, size.1 as int) <= size.1,
{
    lemma_confined_within(a.position.x as int, size.0 as int);
    lemma_confined_within(a.position.y as int, size.1 as int);
}

} // verus!

verus! {

/// Registers the ant systems: setup, actions, motion and confinement.
pub struct AntPlugin;

impl AntPlugin {
    /// Moves every ant for `elapsed` milliseconds.
    pub fn movement(ants: &mut Vec<Ant>, elapsed: u32)
        ensures
            final(ants)@.len() == old(ants)@.len(),
            forall|i: int|
                0 <= i < final(ants)@.len() ==> #[trigger] final(ants)@[i] == (Ant {
                    position: old(ants)@[i].moved(elapsed),
                    ..old(ants)@[i]
                }),
    {
        let ghost s = ants@;
        let mut i: usize = 0;
        while i < ants.len()
            invariant
                ants@.len() == s.len(),
                i <= s.len(),
                forall|j: int| 0 <= j < i ==> #[trigger] ants@[j] == (Ant { position: s[j].moved(elapsed), ..s[j] }),
                forall|j: int| i <= j < s.len() ==> #[trigger] ants@[j] == s[j],
            decreases s.len() - i,
        {
            let mut a = ants[i];
            a.movement(elapsed);
            ants.set(i, a);
            i = i + 1;
        }
    }

    /// Turns every ant back from the walls of `size`.
    pub fn confine_ant_movement(ants: &mut Vec<Ant>, size: &WorldSize)
        requires
            size.wf(),
        ensures
            final(ants)@.len() == old(ants)@.len(),
            forall|i: int|
                0 <= i < final(ants)@.len() ==> #[trigger] final(ants)@[i] == (Ant {
                    position: Point {
                        x: confined(old(ants)@[i].position.x as int, size.0 as int) as i32,
                        y: confined(old(ants)@[i].position.y as int, size.1 as int) as i32,
                    },
                    direction: Direction { heading: old(ants)@[i].confined_heading(*size) as u32 },
                    ..old(ants)@[i]
                }),
    {
        let ghost s = ants@;
        let mut i: usize = 0;
        while i < ants.len()
            invariant
                size.wf(),
                ants@.len() == s.len(),
                i <= s.len(),
                forall|j: int|
                    0 <= j < i ==> #[trigger] ants@[j] == (Ant {
                        position: Point {
                            x: confined(s[j].position.x as int, size.0 as int) as i32,
                            y: confined(s[j].position.y as int, size.1 as int) as i32,
                        },
                        direction: Direction { heading: s[j].confined_heading(*size) as u32 },
                        ..s[j]
                    }),
                forall|j: int| i <= j < s.len() ==> #[trigger] ants@[j] == s[j],
            decreases s.len() - i,
        {
            let mut a = ants[i];
            a.confine(size);
            ants.set(i, a);
            i = i + 1;
        }
    }

    /// Ages every ant by `elapsed` milliseconds.
    pub fn increase_age(ants: &mut Vec<Ant>, elapsed: u32)
        ensures
            final(ants)@.len() == old(ants)@.len(),
            forall|i: int|
                0 <= i < final(ants)@.len() ==> #[trigger] final(ants)@[i] == (Ant {
                    age: Age(old(ants)@[i].age.after(elapsed)),
                    ..old(ants)@[i]
                }),
    {
        let ghost s = ants@;
        let mut i: usize = 0;
        while i < ants.len()
            invariant
                ants@.len() == s.len(),
                i <= s.len(),
                forall|j: int| 0 <= j < i ==> #[trigger] ants@[j] == (Ant { age: Age(s[j].age.after(elapsed)), ..s[j] }),
                forall|j: int| i <= j < s.len() ==> #[trigger] ants@[j] == s[j],
            decreases s.len() - i,
        {
            let mut a = ants[i];
            a.age.advance(elapsed);
            ants.set(i, a);
            i = i + 1;
        }
    }
}

} // verus!
