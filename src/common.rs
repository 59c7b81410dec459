//! Kinds and quantities shared by every part of the simulation.
use crate::ant::AntPlugin;
use crate::colony::ColonyPlugin;
use crate::food::FoodPlugin;
use crate::pheromone::PheromonePlugin;
use crate::world::World;
use vstd::prelude::*;

verus! {

/// Time since an entity was spawned, in milliseconds.
#[derive(Clone, Copy, Debug, PartialEq, Eq)]
pub struct Age(pub u64);

impl Age {
    /// The age after `elapsed` more milliseconds, held at `u64::MAX`.
    pub open spec fn after(self, elapsed: u32) -> u64 {
        if self.0 + elapsed <= u64::MAX {
            (self.0 + elapsed) as u64
        } else {
            u64::MAX
        }
    }

    /// Adds `elapsed` milliseconds.
    pub fn advance(&mut self, elapsed: u32)
        ensures
            final(self).0 == old(self).after(elapsed),
    {
        self.0 = self.0.saturating_add(elapsed as u64);
    }
}

/// The faction an entity belongs to; it also picks the decision policy of
/// its ants.
#[derive(Clone, Copy, Debug, PartialEq, Eq, Structural)]
pub enum Player {
    Random,
    Natural,
}

/// A kind of resource.
#[derive(Clone, Copy, Debug, PartialEq, Eq, Structural)]
pub enum Food {
    Fungi,
}

/// The two kinds of trail marker.
#[derive(Clone, Copy, Debug, PartialEq, Eq, Structural)]
pub enum Pheromone {
    Green,
    Red,
}

/// Registers the system that ages every entity.
pub struct CommonPlugin;

impl CommonPlugin {
    /// Ages every ant, marker, resource node and home base by `elapsed`
    /// milliseconds, changing nothing else.
    pub fn increase_age(world: &mut World, elapsed: u32)
        requires
            old(world).wf(),
        ensures
            final(world).wf(),
            final(world).size == old(world).size,
            final(world).ants@.len() == old(world).ants@.len(),
            forall|i: int|
                0 <= i < final(world).ants@.len() ==> #[trigger] final(world).ants@[i] == (crate::ant::Ant {
                    age: Age(old(world).ants@[i].age.after(elapsed)),
                    ..old(world).ants@[i]
                }),
            final(world).markers@ == crate::pheromone::aged_markers(old(world).markers@, elapsed),
            final(world).foods@.len() == old(world).foods@.len(),
            forall|i: int|
                0 <= i < final(world).foods@.len() ==> (#[trigger] final(world).foods@[i]).age.0
                    == old(world).foods@[i].age.after(elapsed) && final(world).foods@[i].position
                    == old(world).foods@[i].position && final(world).foods@[i].food == old(
                    world,
                ).foods@[i].food,
            final(world).colonies@.len() == old(world).colonies@.len(),
            forall|i: int|
                0 <= i < final(world).colonies@.len() ==> (#[trigger] final(world).colonies@[i]).age.0
                    == old(world).colonies@[i].age.after(elapsed)
                    && final(world).colonies@[i].position == old(world).colonies@[i].position
                    && final(world).colonies@[i].player == old(world).colonies@[i].player
                    && final(world).colonies@[i].food_storage@ == old(world).colonies@[i].food_storage@,
    {
        AntPlugin::increase_age(&mut world.ants, elapsed);
        PheromonePlugin::increase_age(&mut world.markers, elapsed);
        FoodPlugin::increase_age(&mut world.foods, elapsed);
        ColonyPlugin::increase_age(&mut world.colonies, elapsed);
    }
}

} // verus!
