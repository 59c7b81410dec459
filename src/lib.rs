//! Colony-foraging swarm simulation core: perception, decision policies,
//! action resolution, motion, boundary confinement and entity lifecycle,
//! all over integer world coordinates.

pub mod amount;
pub mod geometry;
pub mod common;
pub mod world;
pub mod ant;
pub mod pheromone;
pub mod food;
pub mod colony;
pub mod perception;
pub mod player;
pub mod players;
pub mod action;

pub use action::Spawn;
pub use amount::Amount;
pub use ant::{Abilities, Ant, AntAction, AntPlugin, Cargo, CargoType, Speed, Vision};
pub use colony::{Colony, ColonyPlugin, FoodStorage};
pub use common::{Age, CommonPlugin, Food, Pheromone, Player};
pub use food::{FoodPlugin, FoodSource};
pub use geometry::{Direction, Offset, Point};
pub use pheromone::{PheromonePlugin, TrailMarker};
pub use players::{Natural, Random};
pub use world::{World, WorldPlugin, WorldSize};
