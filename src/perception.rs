//! What an ant perceives: the markers, resource nodes and home bases
//! closer than its vision distance and in front of it.
use crate::ant::Ant;
use crate::colony::Colony;
use crate::common::{Food, Pheromone, Player};
use crate::food::FoodSource;
use crate::geometry::{facing_dot, facing_x, facing_y, lemma_facing_bounded, Offset, Point};
use crate::pheromone::TrailMarker;
use vstd::prelude::*;

verus! {

/// The vector from the ant to `target`.
pub open spec fn offset_from(ant: Ant, target: Point) -> Offset {
    Offset { x: (target.x - ant.position.x) as i64, y: (target.y - ant.position.y) as i64 }
}

/// Whether `ant` sees `target`: strictly closer than its vision distance,
/// and at strictly less than a right angle from its heading.
pub open spec fn sees(ant: Ant, target: Point) -> bool {
    let dx = target.x - ant.position.x;
    let dy = target.y - ant.position.y;
    &&& dx * dx + dy * dy < ant.abilities.vision.distance * ant.abilities.vision.distance
    &&& facing_dot(ant.direction.heading as int, dx, dy) > 0
}

/// Whether an entity at offset `o` from `ant` is in its sight: strictly
/// within vision distance and at strictly less than a right angle from its
/// heading.
pub open spec fn in_sight(ant: Ant, o: Offset) -> bool {
    &&& o.len2() < ant.abilities.vision.distance * ant.abilities.vision.distance
    &&& facing_dot(ant.direction.heading as int, o.x as int, o.y as int) > 0
}

/// Indices, in order, of the positions of `ps` that `ant` sees.
pub open spec fn visible_indices(ant: Ant, ps: Seq<Point>) -> Seq<int>
    decreases ps.len(),
{
    if ps.len() == 0 {
        Seq::empty()
    } else if sees(ant, ps.last()) {
        visible_indices(ant, ps.drop_last()).push(ps.len() - 1)
    } else {
        visible_indices(ant, ps.drop_last())
    }
}

pub open spec fn marker_positions(s: Seq<TrailMarker>) -> Seq<Point> {
    s.map_values(|m: TrailMarker| m.position)
}

pub open spec fn food_positions(s: Seq<FoodSource>) -> Seq<Point> {
    s.map_values(|f: FoodSource| f.position)
}

pub open spec fn colony_positions(s: Seq<Colony>) -> Seq<Point> {
    s.map_values(|c: Colony| c.position)
}

/// The markers `ant` sees, in order, each with the vector to it.
pub open spec fn seen_pheromones(ant: Ant, markers: Seq<TrailMarker>) -> Seq<(Offset, Pheromone, Player)> {
    let idx = visible_indices(ant, marker_positions(markers));
    Seq::new(
        idx.len(),
        |k: int| (offset_from(ant, markers[idx[k]].position), markers[idx[k]].pheromone, markers[idx[k]].player),
    )
}

/// The resource nodes `ant` sees, in order, each with the vector to it.
pub open spec fn seen_foods(ant: Ant, foods: Seq<FoodSource>) -> Seq<(Offset, Food)> {
    let idx = visible_indices(ant, food_positions(foods));
    Seq::new(idx.len(), |k: int| (offset_from(ant, foods[idx[k]].position), foods[idx[k]].food))
}

/// The home bases `ant` sees, in order, each with the vector to it.
pub open spec fn seen_colonies(ant: Ant, colonies: Seq<Colony>) -> Seq<(Offset, Player)> {
    let idx = visible_indices(ant, colony_positions(colonies));
    Seq::new(idx.len(), |k: int| (offset_from(ant, colonies[idx[k]].position), colonies[idx[k]].player))
}

/// What one ant perceives in one tick, each entry with the vector from the
/// ant to it.
pub struct Perception {
    pub pheromones: Vec<(Offset, Pheromone, Player)>,
    pub foods: Vec<(Offset, Food)>,
    pub colonies: Vec<(Offset, Player)>,
}

impl Ant {
    /// The vector to `target` when the ant sees it.
    pub fn sight(&self, target: &Point) -> (r: Option<Offset>)
        ensures
            r is Some <==> sees(*self, *target),
            r is Some ==> r->0 == offset_from(*self, *target),
    {
        let rel = self.position.offset_to(target);
        if !rel.shorter_than(self.abilities.vision.distance) {
            return None;
        }
        let f = self.direction.vector();
        proof {
            lemma_facing_bounded(self.direction.heading as int);
            let fx = facing_x(self.direction.heading as int);
            let fy = facing_y(self.direction.heading as int);
            assert(-10000 * 0x1_0000_0000 <= fx * rel.x <= 10000 * 0x1_0000_0000) by (nonlinear_arith)
                requires -10000 <= fx <= 10000, -0x1_0000_0000 <= rel.x <= 0x1_0000_0000;
            assert(-10000 * 0x1_0000_0000 <= fy * rel.y <= 10000 * 0x1_0000_0000) by (nonlinear_arith)
                requires -10000 <= fy <= 10000, -0x1_0000_0000 <= rel.y <= 0x1_0000_0000;
        }
        if f.x * rel.x + f.y * rel.y > 0 {
            Some(rel)
        } else {
            None
        }
    }
}

impl Perception {
    /// The markers `ant` sees, in the order of `markers`.
    pub fn nearby_pheromones(ant: &Ant, markers: &[TrailMarker]) -> (r: Vec<(Offset, Pheromone, Player)>)
        ensures
            r@.len() == visible_indices(*ant, marker_positions(markers@)).len(),
            forall|k: int|
                0 <= k < r@.len() ==> {
                    let m = markers@[visible_indices(*ant, marker_positions(markers@))[k]];
                    #[trigger] r@[k] == (offset_from(*ant, m.position), m.pheromone, m.player)
                },
    {
        let ghost ps = marker_positions(markers@);
        let mut out: Vec<(Offset, Pheromone, Player)> = Vec::new();
        let mut i: usize = 0;
        while i < markers.len()
            invariant
                ps == marker_positions(markers@),
                i <= markers@.len(),
                out@.len() == visible_indices(*ant, ps.subrange(0, i as int)).len(),
                forall|k: int|
                    0 <= k < out@.len() ==> {
                        let m = markers@[visible_indices(*ant, ps.subrange(0, i as int))[k]];
                        #[trigger] out@[k] == (offset_from(*ant, m.position), m.pheromone, m.player)
                    },
            decreases markers@.len() - i,
        {
            let m = markers[i];
            proof {
                assert(ps.subrange(0, i + 1).drop_last() == ps.subrange(0, i as int));
                assert(ps.subrange(0, i + 1).last() == m.position);
            }
            match ant.sight(&m.position) {
                Some(rel) => {
                    out.push((rel, m.pheromone, m.player));
                },
                None => {},
            }
            i = i + 1;
        }
        assert(ps.subrange(0, markers@.len() as int) == ps);
        out
    }

    /// The resource nodes `ant` sees, in the order of `foods`.
    pub fn nearby_foods(ant: &Ant, foods: &[FoodSource]) -> (r: Vec<(Offset, Food)>)
        ensures
            r@.len() == visible_indices(*ant, food_positions(foods@)).len(),
            forall|k: int|
                0 <= k < r@.len() ==> {
                    let f = foods@[visible_indices(*ant, food_positions(foods@))[k]];
                    #[trigger] r@[k] == (offset_from(*ant, f.position), f.food)
                },
    {
        let ghost ps = food_positions(foods@);
        let mut out: Vec<(Offset, Food)> = Vec::new();
        let mut i: usize = 0;
        while i < foods.len()
            invariant
                ps == food_positions(foods@),
                i <= foods@.len(),
                out@.len() == visible_indices(*ant, ps.subrange(0, i as int)).len(),
                forall|k: int|
                    0 <= k < out@.len() ==> {
                        let f = foods@[visible_indices(*ant, ps.subrange(0, i as int))[k]];
                        #[trigger] out@[k] == (offset_from(*ant, f.position), f.food)
                    },
            decreases foods@.len() - i,
        {
            let p = foods[i].position;
            proof {
                assert(ps.subrange(0, i + 1).drop_last() == ps.subrange(0, i as int));
                assert(ps.subrange(0, i + 1).last() == p);
            }
            match ant.sight(&p) {
                Some(rel) => {
                    out.push((rel, foods[i].food));
                },
                None => {},
            }
            i = i + 1;
        }
        assert(ps.subrange(0, foods@.len() as int) == ps);
        out
    }

    /// The home bases `ant` sees, in the order of `colonies`.
    pub fn nearby_colonies(ant: &Ant, colonies: &[Colony]) -> (r: Vec<(Offset, Player)>)
        ensures
            r@.len() == visible_indices(*ant, colony_positions(colonies@)).len(),
            forall|k: int|
                0 <= k < r@.len() ==> {
                    let c = colonies@[visible_indices(*ant, colony_positions(colonies@))[k]];
                    #[trigger] r@[k] == (offset_from(*ant, c.position), c.player)
                },
    {
        let ghost ps = colony_positions(colonies@);
        let mut out: Vec<(Offset, Player)> = Vec::new();
        let mut i: usize = 0;
        while i < colonies.len()
            invariant
                ps == colony_positions(colonies@),
                i <= colonies@.len(),
                out@.len() == visible_indices(*ant, ps.subrange(0, i as int)).len(),
                forall|k: int|
                    0 <= k < out@.len() ==> {
                        let c = colonies@[visible_indices(*ant, ps.subrange(0, i as int))[k]];
                        #[trigger] out@[k] == (offset_from(*ant, c.position), c.player)
                    },
            decreases colonies@.len() - i,
        {
            let p = colonies[i].position;
            proof {
                assert(ps.subrange(0, i + 1).drop_last() == ps.subrange(0, i as int));
                assert(ps.subrange(0, i + 1).last() == p);
            }
            match ant.sight(&p) {
                Some(rel) => {
                    out.push((rel, colonies[i].player));
                },
                None => {},
            }
            i = i + 1;
        }
        assert(ps.subrange(0, colonies@.len() as int) == ps);
        out
    }

    /// Everything `ant` perceives among `markers`, `foods` and `colonies`.
    pub fn of(ant: &Ant, markers: &[TrailMarker], foods: &[FoodSource], colonies: &[Colony]) -> (r: Perception)
        ensures
            r.pheromones@.len() == visible_indices(*ant, marker_positions(markers@)).len(),
            forall|k: int|
                0 <= k < r.pheromones@.len() ==> {
                    let m = markers@[visible_indices(*ant, marker_positions(markers@))[k]];
                    #[trigger] r.pheromones@[k] == (offset_from(*ant, m.position), m.pheromone, m.player)
                },
            r.foods@.len() == visible_indices(*ant, food_positions(foods@)).len(),
            forall|k: int|
                0 <= k < r.foods@.len() ==> {
                    let f = foods@[visible_indices(*ant, food_positions(foods@))[k]];
                    #[trigger] r.foods@[k] == (offset_from(*ant, f.position), f.food)
                },
            r.colonies@.len() == visible_indices(*ant, colony_positions(colonies@)).len(),
            forall|k: int|
                0 <= k < r.colonies@.len() ==> {
                    let c = colonies@[visible_indices(*ant, colony_positions(colonies@))[k]];
                    #[trigger] r.colonies@[k] == (offset_from(*ant, c.position), c.player)
                },
            r.pheromones@ == seen_pheromones(*ant, markers@),
            r.foods@ == seen_foods(*ant, foods@),
            r.colonies@ == seen_colonies(*ant, colonies@),
    {
        let r = Perception {
            pheromones: Perception::nearby_pheromones(ant, markers),
            foods: Perception::nearby_foods(ant, foods),
            colonies: Perception::nearby_colonies(ant, colonies),
        };
        assert(r.pheromones@ =~= seen_pheromones(*ant, markers@));
        assert(r.foods@ =~= seen_foods(*ant, foods@));
        assert(r.colonies@ =~= seen_colonies(*ant, colonies@));
        r
    }
}

/// Perception keeps exactly what the ant sees: every index it lists is of a
/// position strictly within vision distance and strictly in front of the
/// ant, and every such position is listed, once, in order. An entity at a
/// right angle or more from the heading is never included whatever its
/// distance, and one at vision distance or beyond whatever its angle.
pub proof fn lemma_perception_is_sight(ant: Ant, ps: Seq<Point>)
    ensures
        forall|k: int|
            0 <= k < visible_indices(ant, ps).len() ==> 0 <= #[trigger] visible_indices(ant, ps)[k]
                < ps.len() && sees(ant, ps[visible_indices(ant, ps)[k]]),
        forall|k: int, l: int|
            0 <= k < l < visible_indices(ant, ps).len() ==> #[trigger] visible_indices(ant, ps)[k]
                < #[trigger] visible_indices(ant, ps)[l],
        forall|j: int|
            0 <= j < ps.len() && sees(ant, #[trigger] ps[j]) ==> visible_indices(ant, ps).contains(j),
    decreases ps.len(),
{
    if ps.len() > 0 {
        let init = ps.drop_last();
        lemma_perception_is_sight(ant, init);
        let vi = visible_indices(ant, init);
        assert forall|j: int| 0 <= j < ps.len() && sees(ant, #[trigger] ps[j]) implies visible_indices(
            ant,
            ps,
        ).contains(j) by {
            if j < ps.len() - 1 {
                assert(init[j] == ps[j]);
                let k = choose|k: int| 0 <= k < vi.len() && vi[k] == j;
                assert(visible_indices(ant, ps)[k] == j);
            } else {
                assert(visible_indices(ant, ps)[vi.len() as int] == j);
            }
        }
        assert forall|k: int| 0 <= k < visible_indices(ant, ps).len() implies 0 <= #[trigger] visible_indices(ant, ps)[k]
            < ps.len() && sees(ant, ps[visible_indices(ant, ps)[k]]) by {
            if k < vi.len() {
                assert(init[vi[k]] == ps[vi[k]]);
            }
        }
    }
}

/// What the policy is handed is in sight: every marker, resource node and
/// home base entry lies strictly within vision distance and strictly in
/// front of the ant. Whatever lies at a right angle or more from the
/// heading, or at vision distance or beyond, never reaches the decision.
pub proof fn lemma_seen_in_sight(
    ant: Ant,
    markers: Seq<TrailMarker>,
    foods: Seq<FoodSource>,
    colonies: Seq<Colony>,
)
    ensures
        forall|k: int|
            0 <= k < seen_pheromones(ant, markers).len() ==> in_sight(
                ant,
                (#[trigger] seen_pheromones(ant, markers)[k]).0,
            ),
        forall|k: int|
            0 <= k < seen_foods(ant, foods).len() ==> in_sight(ant, (#[trigger] seen_foods(ant, foods)[k]).0),
        forall|k: int|
            0 <= k < seen_colonies(ant, colonies).len() ==> in_sight(
                ant,
                (#[trigger] seen_colonies(ant, colonies)[k]).0,
            ),
{
    lemma_perception_is_sight(ant, marker_positions(markers));
    lemma_perception_is_sight(ant, food_positions(foods));
    lemma_perception_is_sight(ant, colony_positions(colonies));
    assert forall|k: int| 0 <= k < seen_pheromones(ant, markers).len() implies in_sight(
        ant,
        (#[trigger] seen_pheromones(ant, markers)[k]).0,
    ) by {
        let idx = visible_indices(ant, marker_positions(markers));
        assert(marker_positions(markers)[idx[k]] == markers[idx[k]].position);
    }
    assert forall|k: int| 0 <= k < seen_foods(ant, foods).len() implies in_sight(
        ant,
        (#[trigger] seen_foods(ant, foods)[k]).0,
    ) by {
        let idx = visible_indices(ant, food_positions(foods));
        assert(food_positions(foods)[idx[k]] == foods[idx[k]].position);
    }
    assert forall|k: int| 0 <= k < seen_colonies(ant, colonies).len() implies in_sight(
        ant,
        (#[trigger] seen_colonies(ant, colonies)[k]).0,
    ) by {
        let idx = visible_indices(ant, colony_positions(colonies));
        assert(colony_positions(colonies)[idx[k]] == colonies[idx[k]].position);
    }
}

} // verus!
