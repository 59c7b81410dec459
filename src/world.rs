//! The world's extent and the store of every entity in it.
use crate::action::{acted_on_perception, queued, Spawn};
use crate::ant::{settled, Abilities, Ant, AntPlugin, Cargo, Speed, Vision};
use crate::colony::{absorber, delivered, lemma_delivered_by_positions, Colony, ColonyPlugin};
use crate::food::{kept, stocked};
use crate::pheromone::{aged_markers, fresh_markers};
use crate::common::{Age, CommonPlugin, Food, Player};
use crate::food::{FoodPlugin, FoodSource};
use crate::geometry::{Direction, Point, UNIT};
use crate::pheromone::{lemma_fresh_markers_fresh, PheromonePlugin, TrailMarker};
use crate::player::random_below;
use vstd::prelude::*;

verus! {

/// Distance from a wall at which an ant is turned back, in length units.
pub const MARGIN: i64 = 20 * UNIT;

/// Largest accepted width or height, in length units.
pub const MAX_EXTENT: u32 = 0x4000_0000;

/// Width and height of the world, centred on the origin, in length units.
#[derive(Clone, Copy, Debug, PartialEq, Eq)]
pub struct WorldSize(pub u32, pub u32);

/// Whether an extent leaves room inside both margins and stays within
/// `MAX_EXTENT`.
pub open spec fn valid_extent(e: int) -> bool {
    2 * MARGIN < e <= MAX_EXTENT
}

impl WorldSize {
    pub open spec fn wf(self) -> bool {
        valid_extent(self.0 as int) && valid_extent(self.1 as int)
    }

    /// A world of the given size, or `None` when an extent is too small to
    /// hold both margins or larger than `MAX_EXTENT`.
    pub fn new(width: u32, height: u32) -> (r: Option<WorldSize>)
        ensures
            r is Some <==> valid_extent(width as int) && valid_extent(height as int),
            r is Some ==> r->0 == WorldSize(width, height) && r->0.wf(),
    {
        if 2 * MARGIN < width as i64 && width <= MAX_EXTENT && 2 * MARGIN < height as i64 && height
            <= MAX_EXTENT {
            Some(WorldSize(width, height))
        } else {
            None
        }
    }
}

} // verus!

verus! {

/// Resource given to each node placed at setup.
pub const INITIAL_FOOD_AMOUNT: u64 = 500;

/// Vision distance of an ant, in length units.
pub const ANT_VISION: u64 = 50 * 1000;

/// Top speed of an ant, in length units per second.
pub const ANT_MAX_SPEED: u32 = 300 * 1000;

/// Least starting speed of an ant, in length units per second.
pub const ANT_BASE_SPEED: u32 = 150 * 1000;

/// Spread of starting speeds above `ANT_BASE_SPEED`.
pub const ANT_SPEED_SPREAD: u32 = 70 * 1000;

/// Every entity of the simulation, kept by kind.
pub struct World {
    pub size: WorldSize,
    pub ants: Vec<Ant>,
    pub colonies: Vec<Colony>,
    pub foods: Vec<FoodSource>,
    pub markers: Vec<TrailMarker>,
}

/// The markers among `spawns`, in order.
pub open spec fn spawned_markers(spawns: Seq<Spawn>) -> Seq<TrailMarker>
    decreases spawns.len(),
{
    if spawns.len() == 0 {
        Seq::empty()
    } else {
        match spawns.last() {
            Spawn::Marker(m) => spawned_markers(spawns.drop_last()).push(m),
            Spawn::Food { .. } => spawned_markers(spawns.drop_last()),
        }
    }
}

/// Position and kind of each resource node `spawns` creates, in order.
pub open spec fn spawned_nodes(spawns: Seq<Spawn>) -> Seq<(Point, Food)>
    decreases spawns.len(),
{
    if spawns.len() == 0 {
        Seq::empty()
    } else {
        match spawns.last() {
            Spawn::Marker(_) => spawned_nodes(spawns.drop_last()),
            Spawn::Food { position, food, .. } => spawned_nodes(spawns.drop_last()).push((position, food)),
        }
    }
}

/// `fs` is `old` followed by fresh nodes at the places and of the kinds
/// of `nodes`.
pub open spec fn extended_by(fs: Seq<FoodSource>, old: Seq<FoodSource>, nodes: Seq<(Point, Food)>) -> bool {
    &&& fs.len() == old.len() + nodes.len()
    &&& forall|j: int| 0 <= j < old.len() ==> #[trigger] fs[j] == old[j]
    &&& forall|j: int|
        0 <= j < nodes.len() ==> (#[trigger] fs[old.len() + j]).position == nodes[j].0 && fs[old.len()
            + j].food == nodes[j].1 && fs[old.len() + j].age == Age(0)
}

impl World {
    /// A valid size, ants that carry no empty load, and storages with one
    /// entry per kind.
    pub open spec fn wf(&self) -> bool {
        &&& self.size.wf()
        &&& forall|i: int| 0 <= i < self.ants@.len() ==> (#[trigger] self.ants@[i]).wf()
        &&& forall|i: int| 0 <= i < self.colonies@.len() ==> (#[trigger] self.colonies@[i]).food_storage.wf()
    }

    /// Creates the entities of `spawns`: markers are appended in order, and
    /// each resource spawn becomes a fresh node.
    pub fn commit(&mut self, spawns: Vec<Spawn>)
        ensures
            final(self).markers@ == old(self).markers@ + spawned_markers(spawns@),
            extended_by(final(self).foods@, old(self).foods@, spawned_nodes(spawns@)),
            final(self).size == old(self).size,
            final(self).ants@ == old(self).ants@,
            final(self).colonies@ == old(self).colonies@,
    {
        let ghost m0 = self.markers@;
        let ghost f0 = self.foods@;
        let mut i: usize = 0;
        while i < spawns.len()
            invariant
                i <= spawns@.len(),
                self.markers@ == m0 + spawned_markers(spawns@.subrange(0, i as int)),
                extended_by(self.foods@, f0, spawned_nodes(spawns@.subrange(0, i as int))),
                self.size == old(self).size,
                self.ants@ == old(self).ants@,
                self.colonies@ == old(self).colonies@,
            decreases spawns@.len() - i,
        {
            assert(spawns@.subrange(0, i + 1).drop_last() == spawns@.subrange(0, i as int));
            assert(spawns@.subrange(0, i + 1).last() == spawns@[i as int]);
            match spawns[i] {
                Spawn::Marker(m) => {
                    self.markers.push(m);
                    assert(self.markers@ == m0 + spawned_markers(spawns@.subrange(0, i + 1)));
                },
                Spawn::Food { position, food, amount } => {
                    let ghost prev = self.foods@;
                    self.foods.push(FoodSource::new(position, food, amount));
                    proof {
                        let nodes = spawned_nodes(spawns@.subrange(0, i + 1));
                        let pn = spawned_nodes(spawns@.subrange(0, i as int));
                        assert(nodes == pn.push((position, food)));
                        assert forall|j: int| 0 <= j < nodes.len() implies (#[trigger] self.foods@[f0.len() + j]).position == nodes[j].0 && self.foods@[f0.len()
                            + j].food == nodes[j].1 && self.foods@[f0.len() + j].age == Age(0) by {
                            if j < pn.len() {
                                assert(self.foods@[f0.len() + j] == prev[f0.len() + j]);
                            }
                        }
                    }
                },
            }
            i = i + 1;
        }
        assert(spawns@.subrange(0, spawns@.len() as int) == spawns@);
    }
}

/// A fresh, empty-handed ant of `player` at `position`.
pub open spec fn fresh_ant(position: Point, heading: u32, speed: u32, player: Player) -> Ant {
    Ant {
        position,
        direction: Direction { heading },
        speed: Speed(speed),
        age: Age(0),
        player,
        cargo: Cargo::Empty,
        abilities: Abilities { vision: Vision { distance: ANT_VISION }, speed: ANT_MAX_SPEED },
    }
}

impl Ant {
    /// A fresh, empty-handed ant of `player` at `position`.
    pub fn spawn(position: Point, heading: u32, speed: u32, player: Player) -> (r: Ant)
        ensures
            r == fresh_ant(position, heading, speed, player),
    {
        Ant {
            position,
            direction: Direction { heading },
            speed: Speed(speed),
            age: Age(0),
            player,
            cargo: Cargo::Empty,
            abilities: Abilities { vision: Vision { distance: ANT_VISION }, speed: ANT_MAX_SPEED },
        }
    }
}

/// Whether `p` lies within a world of size `size`.
pub open spec fn inside(p: Point, size: WorldSize) -> bool {
    -size.0 <= 2 * p.x <= size.0 && -size.1 <= 2 * p.y <= size.1
}

/// A coordinate drawn from `-(e / 2)..e - e / 2`.
fn random_coordinate(e: u32) -> (r: i32)
    requires
        valid_extent(e as int),
    ensures
        -(e as int) <= 2 * r <= e,
{
    let v = random_below(e);
    (v as i64 - (e / 2) as i64) as i32
}

/// The resource nodes after a tick's lifecycle stages. `fs` are the nodes
/// of the start of the tick followed by the spawned `nodes`, all
/// `elapsed` milliseconds older; depleted nodes are then dropped (the flags
/// `keep1`, read from their counters); then nodes by a home base are
/// absorbed as `ColonyPlugin::fill_colony_storage` states, with drained
/// quantities `q` and flags `keep2`.
pub open spec fn lifecycle_of_foods(
    fs: Seq<FoodSource>,
    keep1: Seq<bool>,
    q: Seq<u64>,
    keep2: Seq<bool>,
    old_foods: Seq<FoodSource>,
    nodes: Seq<(Point, Food)>,
    elapsed: u32,
    old_colonies: Seq<Colony>,
    final_colonies: Seq<Colony>,
    final_foods: Seq<FoodSource>,
) -> bool {
    let standing = kept(fs, keep1);
    &&& fs.len() == old_foods.len() + nodes.len()
    &&& forall|j: int|
        0 <= j < old_foods.len() ==> (#[trigger] fs[j]).position == old_foods[j].position && fs[j].food
            == old_foods[j].food && fs[j].age.0 == old_foods[j].age.after(elapsed)
    &&& forall|j: int|
        0 <= j < nodes.len() ==> (#[trigger] fs[old_foods.len() + j]).position == nodes[j].0
            && fs[old_foods.len() + j].food == nodes[j].1 && fs[old_foods.len() + j].age.0 == Age(0).after(elapsed)
    &&& keep1.len() == fs.len()
    &&& q.len() == standing.len()
    &&& keep2.len() == standing.len()
    &&& final_foods == kept(standing, keep2)
    &&& forall|i: int|
        0 <= i < keep2.len() && absorber(old_colonies, standing[i].position) is None ==> #[trigger] keep2[i]
    &&& forall|c: int, k: Food|
        0 <= c < final_colonies.len() ==> #[trigger] final_colonies[c].food_storage.stored(k)
            == old_colonies[c].food_storage.stored(k) + delivered(old_colonies, standing, q, keep2, c, k)
}

/// Registers the world's setup.
pub struct WorldPlugin;

impl WorldPlugin {
    /// A world of `size` with a home base for each player at the origin,
    /// `ants` natural ants at the origin with random headings and speeds,
    /// and `foods` resource nodes of `INITIAL_FOOD_AMOUNT` at random places.
    pub fn setup(size: WorldSize, ants: usize, foods: usize) -> (r: World)
        requires
            size.wf(),
        ensures
            r.wf(),
            r.size == size,
            r.colonies@.len() == 2,
            r.colonies@[0].player == Player::Natural && r.colonies@[1].player == Player::Random,
            forall|i: int|
                0 <= i < 2 ==> (#[trigger] r.colonies@[i]).position == (Point { x: 0, y: 0 })
                    && forall|k: Food| r.colonies@[i].food_storage.stored(k) == 0,
            r.ants@.len() == ants,
            forall|i: int|
                0 <= i < ants ==> (#[trigger] r.ants@[i]).position == (Point { x: 0, y: 0 })
                    && r.ants@[i].direction.heading < 360
                    && ANT_BASE_SPEED <= r.ants@[i].speed.0 < ANT_BASE_SPEED + ANT_SPEED_SPREAD
                    && r.ants@[i] == fresh_ant(r.ants@[i].position, r.ants@[i].direction.heading, r.ants@[i].speed.0, Player::Natural),
            r.foods@.len() == foods,
            forall|i: int|
                0 <= i < foods ==> inside((#[trigger] r.foods@[i]).position, size) && r.foods@[i].food
                    == Food::Fungi && r.foods@[i].age == Age(0),
            r.markers@.len() == 0,
    {
        let origin = Point { x: 0, y: 0 };
        let mut colonies: Vec<Colony> = Vec::new();
        colonies.push(Colony::new(origin, Player::Natural));
        colonies.push(Colony::new(origin, Player::Random));
        let mut ant_list: Vec<Ant> = Vec::new();
        let mut i: usize = 0;
        while i < ants
            invariant
                i <= ants,
                ant_list@.len() == i,
                forall|j: int|
                    0 <= j < i ==> (#[trigger] ant_list@[j]).position == origin
                        && ant_list@[j].direction.heading < 360
                        && ANT_BASE_SPEED <= ant_list@[j].speed.0 < ANT_BASE_SPEED + ANT_SPEED_SPREAD
                        && ant_list@[j] == fresh_ant(ant_list@[j].position, ant_list@[j].direction.heading, ant_list@[j].speed.0, Player::Natural),
            decreases ants - i,
        {
            let heading = random_below(360);
            let speed = ANT_BASE_SPEED + random_below(ANT_SPEED_SPREAD);
            ant_list.push(Ant::spawn(origin, heading, speed, Player::Natural));
            i = i + 1;
        }
        let mut food_list: Vec<FoodSource> = Vec::new();
        let mut k: usize = 0;
        while k < foods
            invariant
                size.wf(),
                k <= foods,
                food_list@.len() == k,
                forall|j: int|
                    0 <= j < k ==> inside((#[trigger] food_list@[j]).position, size) && food_list@[j].food
                        == Food::Fungi && food_list@[j].age == Age(0),
            decreases foods - k,
        {
            let x = random_coordinate(size.0);
            let y = random_coordinate(size.1);
            food_list.push(FoodSource::new(Point { x, y }, Food::Fungi, INITIAL_FOOD_AMOUNT));
            k = k + 1;
        }
        World { size, ants: ant_list, colonies, foods: food_list, markers: Vec::new() }
    }

    /// One tick: every ant acts on what it perceives at the start of the
    /// tick, the spawns are committed, ants move and are confined, every
    /// entity ages by `elapsed` milliseconds, expired markers and depleted
    /// nodes are removed, and nodes by a home base are absorbed into it.
    pub fn tick(world: &mut World, elapsed: u32)
        requires
            old(world).wf(),
        ensures
            final(world).wf(),
            final(world).size == old(world).size,
            final(world).ants@.len() == old(world).ants@.len(),
            final(world).colonies@.len() == old(world).colonies@.len(),
            forall|i: int|
                0 <= i < final(world).colonies@.len() ==> (#[trigger] final(world).colonies@[i]).position
                    == old(world).colonies@[i].position && final(world).colonies@[i].player == old(
                    world,
                ).colonies@[i].player && final(world).colonies@[i].age.0 == old(
                    world,
                ).colonies@[i].age.after(elapsed),
            forall|i: int| 0 <= i < final(world).markers@.len() ==> (#[trigger] final(world).markers@[i]).fresh(),
            exists|mid: Seq<Ant>, outs: Seq<Option<Spawn>>|
                #![trigger mid.len(), queued(outs)]
                {
                    &&& mid.len() == old(world).ants@.len()
                    &&& outs.len() == old(world).ants@.len()
                    &&& forall|i: int|
                        0 <= i < mid.len() ==> acted_on_perception(
                            old(world).ants@[i],
                            #[trigger] mid[i],
                            outs[i],
                            old(world).markers@,
                            old(world).foods@,
                            old(world).colonies@,
                        )
                    &&& forall|i: int|
                        0 <= i < mid.len() ==> #[trigger] final(world).ants@[i] == settled(
                            mid[i],
                            elapsed,
                            old(world).size,
                        )
                    &&& final(world).markers@ == fresh_markers(
                        aged_markers(old(world).markers@ + spawned_markers(queued(outs)), elapsed),
                    )
                    &&& exists|fs: Seq<FoodSource>, keep1: Seq<bool>, q: Seq<u64>, keep2: Seq<bool>|
                        #![trigger kept(fs, keep1), q.len(), keep2.len()]
                        lifecycle_of_foods(
                            fs,
                            keep1,
                            q,
                            keep2,
                            old(world).foods@,
                            spawned_nodes(queued(outs)),
                            elapsed,
                            old(world).colonies@,
                            final(world).colonies@,
                            final(world).foods@,
                        )
                },
    {
        let ghost a0 = world.ants@;
        let ghost m0 = world.markers@;
        let ghost f0 = world.foods@;
        let ghost c0 = world.colonies@;
        let spawns = AntPlugin::ant_actions(
            &mut world.ants,
            world.markers.as_slice(),
            world.foods.as_slice(),
            world.colonies.as_slice(),
        );
        let ghost mid = world.ants@;
        let ghost outs = choose|outs: Seq<Option<Spawn>>|
            outs.len() == a0.len() && spawns@ == #[trigger] queued(outs) && forall|i: int|
                0 <= i < outs.len() ==> acted_on_perception(a0[i], mid[i], #[trigger] outs[i], m0, f0, c0);
        world.commit(spawns);
        let ghost f1 = world.foods@;
        AntPlugin::movement(&mut world.ants, elapsed);
        AntPlugin::confine_ant_movement(&mut world.ants, &world.size);
        CommonPlugin::increase_age(world, elapsed);
        let ghost fs = world.foods@;
        let ghost c1 = world.colonies@;
        let ghost aged = world.markers@;
        PheromonePlugin::pheromone_removal(&mut world.markers);
        proof {
            lemma_fresh_markers_fresh(aged);
        }
        FoodPlugin::food_removal(&mut world.foods);
        let ghost standing = world.foods@;
        let ghost remaining = choose|remaining: Seq<u64>|
            remaining.len() == fs.len() && standing == #[trigger] kept(fs, stocked(remaining));
        ColonyPlugin::fill_colony_storage(&mut world.colonies, &mut world.foods);
        proof {
            let keep1 = stocked(remaining);
            let (q, keep2) = choose|q: Seq<u64>, keep: Seq<bool>|
                #![trigger kept(standing, keep), q.len()]
                {
                    &&& q.len() == standing.len()
                    &&& keep.len() == standing.len()
                    &&& world.foods@ == kept(standing, keep)
                    &&& forall|i: int|
                        0 <= i < keep.len() && absorber(c1, standing[i].position) is None
                            ==> #[trigger] keep[i]
                    &&& forall|i: int|
                        0 <= i < keep.len() && #[trigger] keep[i] && absorber(c1, standing[i].position) is Some
                            ==> world.colonies@[absorber(c1, standing[i].position)->0].food_storage.stored(standing[i].food)
                            + q[i] > u64::MAX
                    &&& forall|c: int, k: Food|
                        0 <= c < world.colonies@.len() ==> #[trigger] world.colonies@[c].food_storage.stored(k)
                            == c1[c].food_storage.stored(k) + delivered(c1, standing, q, keep, c, k)
                };
            assert(c1.map_values(|x: Colony| x.position) =~= c0.map_values(|x: Colony| x.position));
            assert forall|c: int, k: Food| 0 <= c < world.colonies@.len() implies #[trigger] world.colonies@[c].food_storage.stored(k)
                == c0[c].food_storage.stored(k) + delivered(c0, standing, q, keep2, c, k) by {
                lemma_delivered_by_positions(c1, c0, standing, q, keep2, c, k);
            }
            assert(keep1.len() == fs.len());
            assert(lifecycle_of_foods(fs, keep1, q, keep2, f0, spawned_nodes(queued(outs)), elapsed, c0, world.colonies@, world.foods@));
            assert(mid.len() == a0.len());
        }
    }
}

} // verus!
