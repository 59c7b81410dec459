//! The decision policies: stigmergic foraging, and a random walk.
use crate::ant::{Abilities, AntAction, Cargo, CargoType, Speed, div_toward_zero};
use crate::common::{Age, Food, Pheromone, Player};
use crate::geometry::{
    angle_between, bounded_turn, fits_heading_search, heading_toward, is_sqrt_floor,
    lemma_turn_toward_closes_angle, sqrt_floor, sqrt_floor_of, toward, turned, Direction, Offset,
};
use crate::player::{Rolls, ROLL_RANGE};
use vstd::prelude::*;

verus! {

/// Chance, in parts of `ROLL_RANGE`, of leaving a marker in a tick.
pub const PHR_DROP_PROB: u32 = 300;

/// Chance, in parts of `ROLL_RANGE`, of a random turn in a tick.
pub const RANDOM_MOVE_PROB: u32 = 6000;

/// Distance within which an ant picks up or delivers, in length units.
pub const PICKUP_RADIUS: u64 = 10 * 1000;

/// Quantity asked for by a pickup.
pub const PICKUP_REQUEST: u64 = 10;

/// Largest turn towards a target in one tick, in degrees.
pub const MAX_TURN: u32 = 30;

/// Largest random turn of a foraging ant, in degrees either way.
pub const RANDOM_TURN: u32 = 18;

/// Angle to its home base, in degrees, beyond which a foraging ant turns
/// towards it.
pub const HOME_ALIGNMENT: u32 = 5;

/// Strength of a marker's pull: a marker at offset `r` pulls with
/// `ATTRACTION / |r|²` along the direction of `r`, that is by
/// `ATTRACTION * r / (|r|² * |r|)` with `|r|` rounded down.
pub const ATTRACTION: u128 = 100_000_000_000_000;

/// Chance, in parts of `ROLL_RANGE`, that the random policy turns rather
/// than leaving a marker.
pub const RANDOM_ROTATE_PROB: u32 = 9900;

/// Largest turn of the random policy, in degrees either way.
pub const RANDOM_POLICY_TURN: u32 = 7;

/// A turn of `-limit..=limit` degrees chosen by `roll`.
pub open spec fn swing(roll: u32, limit: u32) -> int {
    (roll as int) % (2 * limit + 1) - limit
}

fn swing_of(roll: u32, limit: u32) -> (r: i32)
    requires
        limit <= 180,
    ensures
        r == swing(roll, limit),
{
    (roll % (2 * limit + 1)) as i32 - limit as i32
}

/// Turn towards `(x, y)`, at most `MAX_TURN` degrees.
pub open spec fn turn_to(direction: Direction, x: int, y: int) -> AntAction {
    AntAction::Rotate(bounded_turn(direction.heading as int, toward(x, y), MAX_TURN as int) as i32)
}

/// The offsets of the markers of kind `kind` owned by `player`, in order.
pub open spec fn own_pheromones(
    s: Seq<(Offset, Pheromone, Player)>,
    player: Player,
    kind: Pheromone,
) -> Seq<Offset>
    decreases s.len(),
{
    if s.len() == 0 {
        Seq::empty()
    } else if s.last().2 == player && s.last().1 == kind {
        own_pheromones(s.drop_last(), player, kind).push(s.last().0)
    } else {
        own_pheromones(s.drop_last(), player, kind)
    }
}

/// The cube of the distance to a marker at offset `o`, with the distance
/// rounded down.
pub open spec fn distance_cubed(o: Offset) -> int {
    o.len2() * sqrt_floor(o.len2())
}

/// The pull of one marker at offset `o`: inverse-square in its distance,
/// along its direction.
pub open spec fn pull_x(o: Offset) -> int {
    if o.len2() == 0 {
        0
    } else {
        div_toward_zero(ATTRACTION * o.x, distance_cubed(o))
    }
}

pub open spec fn pull_y(o: Offset) -> int {
    if o.len2() == 0 {
        0
    } else {
        div_toward_zero(ATTRACTION * o.y, distance_cubed(o))
    }
}

/// The sum of the pulls of the markers at offsets `s`.
pub open spec fn attraction(s: Seq<Offset>) -> (int, int)
    decreases s.len(),
{
    if s.len() == 0 {
        (0, 0)
    } else {
        let a = attraction(s.drop_last());
        (a.0 + pull_x(s.last()), a.1 + pull_y(s.last()))
    }
}

/// The nearest of the resource nodes `s`, the later of equally near ones.
pub open spec fn nearest_food(s: Seq<(Offset, Food)>) -> Option<(Offset, Food)>
    decreases s.len(),
{
    if s.len() == 0 {
        None
    } else {
        match nearest_food(s.drop_last()) {
            Some(n) => if n.0.len2() < s.last().0.len2() {
                Some(n)
            } else {
                Some(s.last())
            },
            None => Some(s.last()),
        }
    }
}

/// The offset of the first home base of `player` in `s`.
pub open spec fn own_colony(s: Seq<(Offset, Player)>, player: Player) -> Option<Offset>
    decreases s.len(),
{
    if s.len() == 0 {
        None
    } else {
        match own_colony(s.drop_last(), player) {
            Some(o) => Some(o),
            None => if s.last().1 == player {
                Some(s.last().0)
            } else {
                None
            },
        }
    }
}

/// Follow the pull of the markers at `trail`, or turn at random when they
/// pull nowhere.
pub open spec fn follow(direction: Direction, trail: Seq<Offset>, rolls: Rolls) -> AntAction {
    let a = attraction(trail);
    if a.0 == 0 && a.1 == 0 {
        AntAction::Rotate(swing(rolls.angle, RANDOM_TURN) as i32)
    } else {
        turn_to(direction, a.0, a.1)
    }
}

/// Leave a marker of `kind`, turn at random, or follow `trail`, as
/// `rolls` has it.
pub open spec fn wander(direction: Direction, kind: Pheromone, trail: Seq<Offset>, rolls: Rolls) -> AntAction {
    if rolls.action < PHR_DROP_PROB {
        AntAction::DropPheromone(kind)
    } else if rolls.action < PHR_DROP_PROB + RANDOM_MOVE_PROB {
        AntAction::Rotate(swing(rolls.angle, RANDOM_TURN) as i32)
    } else {
        follow(direction, trail, rolls)
    }
}

/// The stigmergic foraging policy. A visible home base of the ant's own
/// player comes first: deliver when within `PICKUP_RADIUS`, else turn
/// towards it when off by more than `HOME_ALIGNMENT`. Then a loaded ant
/// leaves green markers, turns at random, or follows its player's red
/// markers; an empty one makes for the nearest resource node, picking up
/// when within `PICKUP_RADIUS`, and with none in sight leaves red markers,
/// turns at random or follows its player's green markers.
pub open spec fn natural_choice(
    direction: Direction,
    cargo: Cargo,
    player: Player,
    pheromones: Seq<(Offset, Pheromone, Player)>,
    foods: Seq<(Offset, Food)>,
    colonies: Seq<(Offset, Player)>,
    rolls: Rolls,
) -> AntAction {
    let home = own_colony(colonies, player);
    if home is Some && home->0.len2() < PICKUP_RADIUS * PICKUP_RADIUS {
        AntAction::DropCargo
    } else if home is Some && angle_between(
        direction.heading as int,
        toward(home->0.x as int, home->0.y as int),
    ) > HOME_ALIGNMENT {
        turn_to(direction, home->0.x as int, home->0.y as int)
    } else if cargo is Food {
        wander(direction, Pheromone::Green, own_pheromones(pheromones, player, Pheromone::Red), rolls)
    } else {
        match nearest_food(foods) {
            Some(n) => if n.0.len2() < PICKUP_RADIUS * PICKUP_RADIUS {
                AntAction::PickupCargo(CargoType::Food(n.1), PICKUP_REQUEST)
            } else {
                turn_to(direction, n.0.x as int, n.0.y as int)
            },
            None => wander(
                direction,
                Pheromone::Red,
                own_pheromones(pheromones, player, Pheromone::Green),
                rolls,
            ),
        }
    }
}

/// The random-walk policy: mostly a small random turn, now and then a
/// marker of a random kind.
pub open spec fn random_choice(rolls: Rolls) -> AntAction {
    if rolls.action < RANDOM_ROTATE_PROB {
        AntAction::Rotate(swing(rolls.angle, RANDOM_POLICY_TURN) as i32)
    } else if rolls.pick > ROLL_RANGE / 2 {
        AntAction::DropPheromone(Pheromone::Green)
    } else {
        AntAction::DropPheromone(Pheromone::Red)
    }
}

/// The offsets of the markers of kind `pheromone` owned by `player`.
pub fn get_own_pheromones(
    pheromones: &[(Offset, Pheromone, Player)],
    player: &Player,
    pheromone: &Pheromone,
) -> (r: Vec<Offset>)
    ensures
        r@ == own_pheromones(pheromones@, *player, *pheromone),
{
    let ghost s = pheromones@;
    let mut out: Vec<Offset> = Vec::new();
    let mut i: usize = 0;
    while i < pheromones.len()
        invariant
            s == pheromones@,
            i <= s.len(),
            out@ == own_pheromones(s.subrange(0, i as int), *player, *pheromone),
        decreases s.len() - i,
    {
        let (dir, phr, ply) = pheromones[i];
        assert(s.subrange(0, i + 1).drop_last() == s.subrange(0, i as int));
        if ply == *player && phr == *pheromone {
            out.push(dir);
        }
        i = i + 1;
    }
    assert(s.subrange(0, s.len() as int) == s);
    out
}

/// `|v| <= s` when `v² <= l < (s + 1)²`.
proof fn lemma_coordinate_within_root(v: int, l: int, s: int)
    requires
        v * v <= l,
        is_sqrt_floor(s, l),
    ensures
        -s <= v <= s,
{
    if v > s {
        assert((s + 1) * (s + 1) <= v * v) by (nonlinear_arith)
            requires 0 <= s, s + 1 <= v;
    } else if v < -s {
        assert((s + 1) * (s + 1) <= v * v) by (nonlinear_arith)
            requires 0 <= s, v <= -(s + 1);
    }
}

/// `A * |v| / (l * s)` lies in `0..=A` when `|v| <= s` and `l >= 1`.
proof fn lemma_scaled_quotient_bounded(m: int, l: int, s: int)
    requires
        0 <= m <= s,
        l >= 1,
        s >= 1,
    ensures
        0 <= (ATTRACTION * m) / (l * s) <= ATTRACTION,
{
    {
        assert(ATTRACTION * m <= ATTRACTION * (l * s)) by (nonlinear_arith)
            requires 0 <= m <= s, l >= 1, s > 0;
        assert(l * s > 0) by (nonlinear_arith)
            requires l >= 1, s > 0;
        assert((ATTRACTION * m) / (l * s) <= (ATTRACTION * (l * s)) / (l * s)) by {
            vstd::arithmetic::div_mod::lemma_div_is_ordered(ATTRACTION * m, ATTRACTION * (l * s), l * s);
        }
        vstd::arithmetic::div_mod::lemma_div_by_multiple(ATTRACTION as int, l * s);
        assert(0 <= (ATTRACTION * m) / (l * s)) by (nonlinear_arith)
            requires m >= 0, l * s > 0;
    }
}

/// The integer square root of a positive number is positive.
proof fn lemma_root_positive(s: int, l: int)
    requires
        l >= 1,
        is_sqrt_floor(s, l),
    ensures
        s >= 1,
{
    if s == 0 {
        assert((s + 1) * (s + 1) == 1);
    }
}

/// A marker's pull is at most `ATTRACTION` along each axis.
proof fn lemma_pull_bounded(o: Offset)
    ensures
        -ATTRACTION <= pull_x(o) <= ATTRACTION,
        -ATTRACTION <= pull_y(o) <= ATTRACTION,
{
    let l = o.len2();
    if l != 0 {
        assert(o.x * o.x >= 0 && o.y * o.y >= 0) by (nonlinear_arith);
        assert(l >= 1);
        let s = sqrt_floor(l);
        lemma_sqrt_exists(l);
        lemma_coordinate_within_root(o.x as int, l, s);
        lemma_coordinate_within_root(o.y as int, l, s);
        lemma_root_positive(s, l);
        let ax: int = if o.x < 0 { -o.x } else { o.x as int };
        let ay: int = if o.y < 0 { -o.y } else { o.y as int };
        lemma_scaled_quotient_bounded(ax, l, s);
        lemma_scaled_quotient_bounded(ay, l, s);
        assert(ATTRACTION * o.x == if o.x < 0 { -(ATTRACTION * ax) } else { ATTRACTION * ax });
        assert(ATTRACTION * o.y == if o.y < 0 { -(ATTRACTION * ay) } else { ATTRACTION * ay });
    }
}

/// Every natural number has an integer square root.
proof fn lemma_sqrt_exists(n: int)
    requires
        n >= 0,
    ensures
        exists|r: int| #[trigger] is_sqrt_floor(r, n),
        is_sqrt_floor(sqrt_floor(n), n),
    decreases n,
{
    if n == 0 {
        assert(is_sqrt_floor(0, 0));
    } else {
        lemma_sqrt_exists(n - 1);
        let r = choose|r: int| #[trigger] is_sqrt_floor(r, n - 1);
        if (r + 1) * (r + 1) <= n {
            assert(n < (r + 2) * (r + 2)) by (nonlinear_arith)
                requires n - 1 < (r + 1) * (r + 1), r >= 0;
            assert(is_sqrt_floor(r + 1, n));
        } else {
            assert(is_sqrt_floor(r, n));
        }
    }
}

/// `div_toward_zero(ATTRACTION * v, l * s)`, for `l >= 1` and `s` the
/// integer square root of `l`.
fn pull_along(v: i64, l: u128, s: u128) -> (r: i128)
    requires
        l >= 1,
        l <= 0x8000_0000_0000_0000_0000_0000_0000_0000,
        v * v <= l,
        is_sqrt_floor(s as int, l as int),
    ensures
        r == div_toward_zero(ATTRACTION * v, l * s),
{
    let m: u128 = if v < 0 {
        (-(v as i128)) as u128
    } else {
        v as u128
    };
    proof {
        lemma_root_positive(s as int, l as int);
        lemma_coordinate_within_root(v as int, l as int, s as int);
        lemma_scaled_quotient_bounded(m as int, l as int, s as int);
    }
    assert(ATTRACTION * m <= ATTRACTION * 0x8000_0000_0000_0000) by (nonlinear_arith)
        requires m <= 0x8000_0000_0000_0000;
    let q = ATTRACTION * m / l / s;
    proof {
        vstd::arithmetic::div_mod::lemma_div_denominator((ATTRACTION * m) as int, l as int, s as int);
    }
    if v < 0 {
        assert(ATTRACTION * v == -(ATTRACTION * m));
        -(q as i128)
    } else {
        q as i128
    }
}

/// The sum of the pulls of the markers at `own_pheromones`.
pub fn get_pheromone_attraction(own_pheromones: &[Offset]) -> (r: (i128, i128))
    ensures
        r.0 == attraction(own_pheromones@).0,
        r.1 == attraction(own_pheromones@).1,
        fits_heading_search(r.0 as int, r.1 as int),
{
    let ghost s = own_pheromones@;
    let mut x: i128 = 0;
    let mut y: i128 = 0;
    let mut i: usize = 0;
    while i < own_pheromones.len()
        invariant
            s == own_pheromones@,
            i <= s.len(),
            x == attraction(s.subrange(0, i as int)).0,
            y == attraction(s.subrange(0, i as int)).1,
            -(i * ATTRACTION) <= x <= i * ATTRACTION,
            -(i * ATTRACTION) <= y <= i * ATTRACTION,
        decreases s.len() - i,
    {
        let o = own_pheromones[i];
        assert(s.subrange(0, i + 1).drop_last() == s.subrange(0, i as int));
        assert(s.subrange(0, i + 1).last() == o);
        proof {
            lemma_pull_bounded(o);
            assert((i + 1) * ATTRACTION == i * ATTRACTION + ATTRACTION) by (nonlinear_arith);
            assert(i * ATTRACTION <= 0xffff_ffff_ffff_ffff * ATTRACTION) by (nonlinear_arith)
                requires i <= 0xffff_ffff_ffff_ffffu64;
        }
        let l = o.length_squared();
        if l != 0 {
            let root = sqrt_floor_of(l);
            assert(o.x * o.x >= 0 && o.y * o.y >= 0) by (nonlinear_arith);
            x = x + pull_along(o.x, l, root);
            y = y + pull_along(o.y, l, root);
        }
        i = i + 1;
    }
    assert(s.subrange(0, s.len() as int) == s);
    proof {
        assert(i * ATTRACTION <= 0xffff_ffff_ffff_ffff * ATTRACTION) by (nonlinear_arith)
            requires i <= 0xffff_ffff_ffff_ffffu64;
    }
    (x, y)
}

/// The nearest of the resource nodes `foods`, the later of equally near
/// ones.
pub fn get_nearest_food(foods: &[(Offset, Food)]) -> (r: Option<(Offset, Food)>)
    ensures
        r == nearest_food(foods@),
{
    let ghost s = foods@;
    let mut best: Option<(Offset, Food)> = None;
    let mut best_len: u128 = 0;
    let mut i: usize = 0;
    while i < foods.len()
        invariant
            s == foods@,
            i <= s.len(),
            best == nearest_food(s.subrange(0, i as int)),
            best matches Some(b) ==> best_len == b.0.len2(),
        decreases s.len() - i,
    {
        let f = foods[i];
        assert(s.subrange(0, i + 1).drop_last() == s.subrange(0, i as int));
        assert(s.subrange(0, i + 1).last() == f);
        let l = f.0.length_squared();
        match best {
            Some(_) => {
                if !(best_len < l) {
                    best = Some(f);
                    best_len = l;
                }
            },
            None => {
                best = Some(f);
                best_len = l;
            },
        }
        i = i + 1;
    }
    assert(s.subrange(0, s.len() as int) == s);
    best
}

/// The offset of the first home base of `player` among `colonies`.
pub fn get_own_colony(colonies: &[(Offset, Player)], player: &Player) -> (r: Option<Offset>)
    ensures
        r == own_colony(colonies@, *player),
{
    let ghost s = colonies@;
    let mut i: usize = 0;
    while i < colonies.len()
        invariant
            s == colonies@,
            i <= s.len(),
            own_colony(s.subrange(0, i as int), *player) is None,
        decreases s.len() - i,
    {
        let (o, p) = colonies[i];
        assert(s.subrange(0, i + 1).drop_last() == s.subrange(0, i as int));
        assert(s.subrange(0, i + 1).last() == (o, p));
        if p == *player {
            proof {
                assert(own_colony(s.subrange(0, i + 1), *player) == Some(o));
                lemma_own_colony_stable(s, i + 1, s.len() as int, *player);
                assert(s.subrange(0, s.len() as int) == s);
            }
            return Some(o);
        }
        i = i + 1;
    }
    assert(s.subrange(0, s.len() as int) == s);
    None
}

/// Once a prefix holds a home base of `player`, longer prefixes give the
/// same one.
proof fn lemma_own_colony_stable(s: Seq<(Offset, Player)>, n: int, m: int, player: Player)
    requires
        0 <= n <= m <= s.len(),
        own_colony(s.subrange(0, n), player) is Some,
    ensures
        own_colony(s.subrange(0, m), player) == own_colony(s.subrange(0, n), player),
    decreases m - n,
{
    if m > n {
        lemma_own_colony_stable(s, n, m - 1, player);
        assert(s.subrange(0, m).drop_last() == s.subrange(0, m - 1));
    }
}

/// The turn towards `(x, y)`, at most `MAX_TURN` degrees.
fn turn_to_exec(direction: &Direction, x: i128, y: i128) -> (r: AntAction)
    requires
        fits_heading_search(x as int, y as int),
    ensures
        r == turn_to(*direction, x as int, y as int),
{
    let t = heading_toward(x, y);
    AntAction::Rotate(direction.turn_toward(t, MAX_TURN))
}

fn follow_exec(direction: &Direction, trail: &[Offset], rolls: Rolls) -> (r: AntAction)
    ensures
        r == follow(*direction, trail@, rolls),
{
    let (x, y) = get_pheromone_attraction(trail);
    if x == 0 && y == 0 {
        AntAction::Rotate(swing_of(rolls.angle, RANDOM_TURN))
    } else {
        turn_to_exec(direction, x, y)
    }
}

fn wander_exec(direction: &Direction, kind: Pheromone, trail: &[Offset], rolls: Rolls) -> (r: AntAction)
    ensures
        r == wander(*direction, kind, trail@, rolls),
{
    if rolls.action < PHR_DROP_PROB {
        AntAction::DropPheromone(kind)
    } else if rolls.action < PHR_DROP_PROB + RANDOM_MOVE_PROB {
        AntAction::Rotate(swing_of(rolls.angle, RANDOM_TURN))
    } else {
        follow_exec(direction, trail, rolls)
    }
}

/// The stigmergic foraging policy.
pub struct Natural;

impl Natural {
    /// The action the foraging policy picks for the given draws.
    pub fn decide(
        direction: &Direction,
        cargo: &Cargo,
        player: Player,
        pheromones: &[(Offset, Pheromone, Player)],
        foods: &[(Offset, Food)],
        colonies: &[(Offset, Player)],
        rolls: Rolls,
    ) -> (r: AntAction)
        ensures
            r == natural_choice(*direction, *cargo, player, pheromones@, foods@, colonies@, rolls),
    {
        let home = get_own_colony(colonies, &player);
        if let Some(h) = home {
            if h.shorter_than(PICKUP_RADIUS) {
                return AntAction::DropCargo;
            }
            let t = heading_toward(h.x as i128, h.y as i128);
            if direction.angle_to(t) > HOME_ALIGNMENT {
                return turn_to_exec(direction, h.x as i128, h.y as i128);
            }
        }
        match cargo {
            Cargo::Food { .. } => {
                let own = get_own_pheromones(pheromones, &player, &Pheromone::Red);
                wander_exec(direction, Pheromone::Green, own.as_slice(), rolls)
            },
            Cargo::Empty => {
                match get_nearest_food(foods) {
                    Some((o, kind)) => {
                        if o.shorter_than(PICKUP_RADIUS) {
                            AntAction::PickupCargo(CargoType::Food(kind), PICKUP_REQUEST)
                        } else {
                            turn_to_exec(direction, o.x as i128, o.y as i128)
                        }
                    },
                    None => {
                        let own = get_own_pheromones(pheromones, &player, &Pheromone::Green);
                        wander_exec(direction, Pheromone::Red, own.as_slice(), rolls)
                    },
                }
            },
        }
    }

    /// The action the foraging policy picks, with fresh random draws.
    pub fn ant_action(
        direction: &Direction,
        _speed: Speed,
        _age: Age,
        cargo: &Cargo,
        player: Player,
        _abilities: &Abilities,
        pheromones: &[(Offset, Pheromone, Player)],
        foods: &[(Offset, Food)],
        colonies: &[(Offset, Player)],
    ) -> (r: AntAction)
        ensures
            exists|rolls: Rolls|
                rolls.action < ROLL_RANGE && rolls.angle < ROLL_RANGE && rolls.pick < ROLL_RANGE
                    && r == #[trigger] natural_choice(
                    *direction,
                    *cargo,
                    player,
                    pheromones@,
                    foods@,
                    colonies@,
                    rolls,
                ),
    {
        let rolls = Rolls::draw();
        Natural::decide(direction, cargo, player, pheromones, foods, colonies, rolls)
    }
}

/// The random-walk policy.
pub struct Random;

impl Random {
    /// The action the random policy picks for the given draws.
    pub fn decide(rolls: Rolls) -> (r: AntAction)
        ensures
            r == random_choice(rolls),
    {
        if rolls.action < RANDOM_ROTATE_PROB {
            AntAction::Rotate(swing_of(rolls.angle, RANDOM_POLICY_TURN))
        } else if rolls.pick > ROLL_RANGE / 2 {
            AntAction::DropPheromone(Pheromone::Green)
        } else {
            AntAction::DropPheromone(Pheromone::Red)
        }
    }

    /// The action the random policy picks, with fresh random draws.
    pub fn ant_action(
        _direction: &Direction,
        _speed: Speed,
        _age: Age,
        _cargo: &Cargo,
        _player: Player,
        _abilities: &Abilities,
        _nearby_pheromones: &[(Offset, Pheromone, Player)],
        _nearby_food: &[(Offset, Food)],
        _colonies: &[(Offset, Player)],
    ) -> (r: AntAction)
        ensures
            exists|rolls: Rolls|
                rolls.action < ROLL_RANGE && rolls.angle < ROLL_RANGE && rolls.pick < ROLL_RANGE
                    && r == #[trigger] random_choice(rolls),
    {
        Random::decide(Rolls::draw())
    }
}

/// An empty-handed forager with no home base of its own in sight makes for
/// the nearest resource node it sees: it asks for a pickup exactly when the
/// node is within `PICKUP_RADIUS`, and otherwise turns towards it, so that
/// the angle between its new heading and the node strictly decreases
/// unless it already faced the node.
pub proof fn lemma_forager_heads_for_food(
    direction: Direction,
    player: Player,
    pheromones: Seq<(Offset, Pheromone, Player)>,
    foods: Seq<(Offset, Food)>,
    colonies: Seq<(Offset, Player)>,
    rolls: Rolls,
)
    requires
        own_colony(colonies, player) is None,
        nearest_food(foods) is Some,
    ensures
        ({
            let n = nearest_food(foods)->0;
            let action = natural_choice(direction, Cargo::Empty, player, pheromones, foods, colonies, rolls);
            let target = toward(n.0.x as int, n.0.y as int);
            &&& n.0.len2() < PICKUP_RADIUS * PICKUP_RADIUS ==> action == AntAction::PickupCargo(
                CargoType::Food(n.1),
                PICKUP_REQUEST,
            )
            &&& n.0.len2() >= PICKUP_RADIUS * PICKUP_RADIUS ==> action is Rotate
            &&& action matches AntAction::Rotate(t) ==> angle_between(
                turned(direction.heading as int, t as int),
                target,
            ) < angle_between(direction.heading as int, target) || angle_between(
                direction.heading as int,
                target,
            ) == 0
        }),
{
    let n = nearest_food(foods)->0;
    let target = toward(n.0.x as int, n.0.y as int);
    lemma_turn_toward_closes_angle(direction.heading as int, target, MAX_TURN as int);
}

} // verus!
