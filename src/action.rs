//! The action resolver: applies the one action an ant chose, drawing on
//! resource counters and handing back the spawns to commit after the pass.
use crate::ant::{Ant, AntAction, Cargo, CargoType, Speed};
use crate::colony::Colony;
use crate::common::{Age, Food, Pheromone};
use crate::food::FoodSource;
use crate::geometry::{turned, Direction, Point};
use crate::perception::{
    seen_colonies, seen_foods, seen_pheromones, sees, Perception,
};
use crate::pheromone::TrailMarker;
use crate::player::{player_choice, Rolls, ROLL_RANGE};
use crate::players::PICKUP_RADIUS;
use vstd::prelude::*;

verus! {

/// An entity to create at the end of a pass.
#[derive(Clone, Copy, Debug, PartialEq, Eq)]
pub enum Spawn {
    Marker(TrailMarker),
    Food { position: Point, food: Food, amount: u64 },
}

/// Whether `ant` can pick up from `f` a resource of `kind`: it sees the
/// node, the node is within `PICKUP_RADIUS` and holds that kind.
pub open spec fn reachable(ant: Ant, f: FoodSource, kind: Food) -> bool {
    &&& sees(ant, f.position)
    &&& ant.position.within(f.position, PICKUP_RADIUS)
    &&& f.food == kind
}

/// The first resource node of `foods` that `ant` can pick up `kind` from.
pub open spec fn pickup_target(ant: Ant, foods: Seq<FoodSource>, kind: Food, at: int) -> bool {
    &&& 0 <= at < foods.len()
    &&& reachable(ant, foods[at], kind)
    &&& forall|j: int| 0 <= j < at ==> !reachable(ant, #[trigger] foods[j], kind)
}

/// The ant and the spawn after an action other than a pickup.
pub open spec fn acted(a: Ant, action: AntAction) -> (Ant, Option<Spawn>) {
    match action {
        AntAction::Rotate(t) => (
            Ant { direction: Direction { heading: turned(a.direction.heading as int, t as int) as u32 }, ..a },
            None,
        ),
        AntAction::Accelerate(s) => (Ant { speed: Speed(s), ..a }, None),
        AntAction::DropPheromone(k) => (
            a,
            Some(Spawn::Marker(TrailMarker { position: a.position, pheromone: k, player: a.player, age: Age(0) })),
        ),
        AntAction::DropCargo => match a.cargo {
            Cargo::Food { typ, amount } => (
                Ant { cargo: Cargo::Empty, ..a },
                Some(Spawn::Food { position: a.position, food: typ, amount }),
            ),
            Cargo::Empty => (a, None),
        },
        AntAction::PickupCargo(_, _) => (a, None),
    }
}

/// The resource node that dropping `cargo` at `position` creates, if it is
/// a load.
pub fn spawn_cargo(cargo: &Cargo, position: Point) -> (r: Option<Spawn>)
    ensures
        *cargo matches Cargo::Food { typ, amount } ==> r == Some(Spawn::Food { position, food: typ, amount }),
        *cargo is Empty ==> r is None,
{
    match cargo {
        Cargo::Food { typ, amount } => Some(Spawn::Food { position, food: *typ, amount: *amount }),
        Cargo::Empty => None,
    }
}

/// `after` is `before` after a pickup of `kind`, up to `requested`, among
/// `foods`: only the cargo may change; it stays as it was when the ant was
/// already loaded or no node was in reach, and otherwise either stays empty
/// or becomes a load of `kind` of `1..=requested`.
pub open spec fn picked_up(before: Ant, after: Ant, foods: Seq<FoodSource>, kind: Food, requested: u64) -> bool {
    &&& after == (Ant { cargo: after.cargo, ..before })
    &&& (before.cargo is Food || forall|j: int| 0 <= j < foods.len() ==> !reachable(before, #[trigger] foods[j], kind))
        ==> after.cargo == before.cargo
    &&& after.cargo == before.cargo || (after.cargo matches Cargo::Food { typ, amount } && typ == kind && 0
        < amount <= requested)
}

/// `after` and `spawn` are what applying `action` to `before` among `foods`
/// gives: `acted` for every action but a pickup, `picked_up` and no spawn
/// for a pickup.
pub open spec fn outcome(before: Ant, after: Ant, spawn: Option<Spawn>, action: AntAction, foods: Seq<FoodSource>) -> bool {
    match action {
        AntAction::PickupCargo(CargoType::Food(kind), requested) => spawn is None && picked_up(
            before,
            after,
            foods,
            kind,
            requested,
        ),
        _ => after == acted(before, action).0 && spawn == acted(before, action).1,
    }
}

/// `after` and `spawn` are what `before` may give by acting on what it
/// perceives among `markers`, `foods` and `colonies`: the choice of its
/// policy for some draws, applied.
#[verifier::opaque]
pub open spec fn acted_on_perception(
    before: Ant,
    after: Ant,
    spawn: Option<Spawn>,
    markers: Seq<TrailMarker>,
    foods: Seq<FoodSource>,
    colonies: Seq<Colony>,
) -> bool {
    exists|rolls: Rolls|
        rolls.action < ROLL_RANGE && rolls.angle < ROLL_RANGE && rolls.pick < ROLL_RANGE && outcome(
            before,
            after,
            spawn,
            #[trigger] player_choice(
                before.player,
                before.direction,
                before.cargo,
                before.player,
                seen_pheromones(before, markers),
                seen_foods(before, foods),
                seen_colonies(before, colonies),
                rolls,
            ),
            foods,
        )
}

/// The spawns of `outs`, in order, skipping the `None`s.
pub open spec fn queued(outs: Seq<Option<Spawn>>) -> Seq<Spawn>
    decreases outs.len(),
{
    if outs.len() == 0 {
        Seq::empty()
    } else {
        match outs.last() {
            Some(sp) => queued(outs.drop_last()).push(sp),
            None => queued(outs.drop_last()),
        }
    }
}

impl Cargo {
    /// The cargo after a pickup of `kind` granted `granted`: a load when
    /// anything was granted, else unchanged.
    pub fn after_pickup(self, kind: Food, granted: u64) -> (r: Cargo)
        ensures
            granted > 0 ==> r == (Cargo::Food { typ: kind, amount: granted }),
            granted == 0 ==> r == self,
    {
        if granted > 0 {
            Cargo::Food { typ: kind, amount: granted }
        } else {
            self
        }
    }
}

impl Ant {
    /// The first resource node of `foods` this ant can pick up `kind` from.
    pub fn find_pickup(&self, foods: &[FoodSource], kind: Food) -> (r: Option<usize>)
        ensures
            r matches Some(i) ==> pickup_target(*self, foods@, kind, i as int),
            r is None ==> forall|j: int| 0 <= j < foods@.len() ==> !reachable(*self, #[trigger] foods@[j], kind),
    {
        let mut i: usize = 0;
        while i < foods.len()
            invariant
                i <= foods@.len(),
                forall|j: int| 0 <= j < i ==> !reachable(*self, #[trigger] foods@[j], kind),
            decreases foods@.len() - i,
        {
            let f = &foods[i];
            if f.food == kind && self.position.is_within(&f.position, PICKUP_RADIUS) && self.sight(&f.position).is_some() {
                return Some(i);
            }
            i = i + 1;
        }
        None
    }

    /// Applies `action`. A rotation turns the heading; acceleration sets the
    /// speed; a marker drop and a cargo drop hand back what to spawn where
    /// the ant stands (a cargo drop empties the ant); a pickup by an empty
    /// ant takes from the first node it can reach and loads what it was
    /// granted. Nothing else changes.
    pub fn apply(&mut self, action: AntAction, foods: &[FoodSource]) -> (r: Option<Spawn>)
        requires
            old(self).wf(),
        ensures
            final(self).wf(),
            outcome(*old(self), *final(self), r, action, foods@),
    {
        match action {
            AntAction::Rotate(t) => {
                self.direction.rotate(t);
                None
            },
            AntAction::Accelerate(s) => {
                self.speed = Speed(s);
                None
            },
            AntAction::DropPheromone(k) => Some(Spawn::Marker(Pheromone::spawn(k, self.player, self.position))),
            AntAction::DropCargo => {
                let spawn = spawn_cargo(&self.cargo, self.position);
                self.cargo = Cargo::Empty;
                spawn
            },
            AntAction::PickupCargo(CargoType::Food(kind), requested) => {
                if let Cargo::Empty = self.cargo {
                    if let Some(i) = self.find_pickup(foods, kind) {
                        let grant = foods[i].amount.take(requested);
                        self.cargo = self.cargo.after_pickup(kind, grant.granted);
                    }
                }
                None
            },
        }
    }

    /// Perceives, lets this ant's policy choose with the given draws, and
    /// applies the choice.
    pub fn act_with(
        &mut self,
        markers: &[TrailMarker],
        foods: &[FoodSource],
        colonies: &[Colony],
        rolls: Rolls,
    ) -> (r: (AntAction, Option<Spawn>))
        requires
            old(self).wf(),
        ensures
            final(self).wf(),
            r.0 == player_choice(
                old(self).player,
                old(self).direction,
                old(self).cargo,
                old(self).player,
                seen_pheromones(*old(self), markers@),
                seen_foods(*old(self), foods@),
                seen_colonies(*old(self), colonies@),
                rolls,
            ),
            outcome(*old(self), *final(self), r.1, r.0, foods@),
    {
        let seen = Perception::of(self, markers, foods, colonies);
        let action = self.player.decide(
            &self.direction,
            &self.cargo,
            self.player,
            seen.pheromones.as_slice(),
            seen.foods.as_slice(),
            seen.colonies.as_slice(),
            rolls,
        );
        let spawn = self.apply(action, foods);
        (action, spawn)
    }

    /// Perceives, lets this ant's policy choose with fresh random draws, and
    /// applies the choice.
    pub fn act(&mut self, markers: &[TrailMarker], foods: &[FoodSource], colonies: &[Colony]) -> (r: (
        AntAction,
        Option<Spawn>,
    ))
        requires
            old(self).wf(),
        ensures
            final(self).wf(),
            acted_on_perception(*old(self), *final(self), r.1, markers@, foods@, colonies@),
    {
        let rolls = Rolls::draw();
        let r = self.act_with(markers, foods, colonies, rolls);
        proof {
            reveal(acted_on_perception);
        }
        r
    }
}

} // verus!

verus! {

impl crate::ant::AntPlugin {
    /// Lets every ant, in turn, perceive the markers, resource nodes and
    /// home bases as they stood at the start of the pass, choose with fresh
    /// draws and act; returns the spawns, in the ants' order, to commit
    /// afterwards.
    pub fn ant_actions(
        ants: &mut Vec<Ant>,
        markers: &[TrailMarker],
        foods: &[FoodSource],
        colonies: &[Colony],
    ) -> (r: Vec<Spawn>)
        requires
            forall|i: int| 0 <= i < old(ants)@.len() ==> (#[trigger] old(ants)@[i]).wf(),
        ensures
            final(ants)@.len() == old(ants)@.len(),
            forall|i: int| 0 <= i < final(ants)@.len() ==> (#[trigger] final(ants)@[i]).wf(),
            exists|outs: Seq<Option<Spawn>>|
                outs.len() == old(ants)@.len() && r@ == #[trigger] queued(outs) && forall|i: int|
                    0 <= i < outs.len() ==> acted_on_perception(
                        old(ants)@[i],
                        final(ants)@[i],
                        #[trigger] outs[i],
                        markers@,
                        foods@,
                        colonies@,
                    ),
    {
        let ghost s = ants@;
        let ghost mut outs: Seq<Option<Spawn>> = Seq::empty();
        let mut spawns: Vec<Spawn> = Vec::new();
        let mut i: usize = 0;
        while i < ants.len()
            invariant
                ants@.len() == s.len(),
                i <= s.len(),
                outs.len() == i,
                spawns@ == queued(outs),
                forall|j: int| 0 <= j < s.len() ==> (#[trigger] s[j]).wf(),
                forall|j: int| 0 <= j < i ==> (#[trigger] ants@[j]).wf(),
                forall|j: int|
                    0 <= j < i ==> acted_on_perception(
                        s[j],
                        ants@[j],
                        #[trigger] outs[j],
                        markers@,
                        foods@,
                        colonies@,
                    ),
                forall|j: int| i <= j < s.len() ==> #[trigger] ants@[j] == s[j],
            decreases s.len() - i,
        {
            let mut a = ants[i];
            let (_, spawn) = a.act(markers, foods, colonies);
            ants.set(i, a);
            let ghost prev = outs;
            proof {
                outs = prev.push(spawn);
                assert(outs.drop_last() =~= prev);
                assert(outs.last() == spawn);
                assert(forall|j: int| 0 <= j < i ==> #[trigger] outs[j] == prev[j]);
            }
            if let Some(sp) = spawn {
                spawns.push(sp);
            }
            i = i + 1;
        }
        spawns
    }
}

} // verus!
