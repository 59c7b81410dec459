//! Policy dispatch by faction, and the random draws a decision uses.
use crate::ant::{Abilities, AntAction, Cargo, Speed};
use crate::common::{Age, Food, Pheromone, Player};
use crate::geometry::{Direction, Offset};
use crate::players::{natural_choice, random_choice, Natural, Random};
use vstd::prelude::*;

verus! {

/// Draws are uniform over `0..ROLL_RANGE`; probabilities are expressed in
/// parts of it.
pub const ROLL_RANGE: u32 = 10000;

pub assume_specification<T>[ rand::random::<T> ]() -> T
    where
        rand::distributions::Standard: rand::distributions::Distribution<T>,
;

/// A number drawn uniformly from `0..n`, up to the bias of reducing a
/// uniform `u32` modulo `n`.
pub fn random_below(n: u32) -> (r: u32)
    requires
        n > 0,
    ensures
        r < n,
{
    let v: u32 = rand::random::<u32>();
    v % n
}

/// The random draws one decision may use.
#[derive(Clone, Copy, Debug, PartialEq, Eq)]
pub struct Rolls {
    /// Chooses among the probabilistic branches.
    pub action: u32,
    /// Sets the angle of a random turn.
    pub angle: u32,
    /// Picks between two alternatives.
    pub pick: u32,
}

impl Rolls {
    /// Fresh draws, each in `0..ROLL_RANGE`.
    pub fn draw() -> (r: Rolls)
        ensures
            r.action < ROLL_RANGE,
            r.angle < ROLL_RANGE,
            r.pick < ROLL_RANGE,
    {
        Rolls {
            action: random_below(ROLL_RANGE),
            angle: random_below(ROLL_RANGE),
            pick: random_below(ROLL_RANGE),
        }
    }
}

/// The action the policy of `player` picks for the given draws.
pub open spec fn player_choice(
    policy: Player,
    direction: Direction,
    cargo: Cargo,
    player: Player,
    pheromones: Seq<(Offset, Pheromone, Player)>,
    foods: Seq<(Offset, Food)>,
    colonies: Seq<(Offset, Player)>,
    rolls: Rolls,
) -> AntAction {
    match policy {
        Player::Random => random_choice(rolls),
        Player::Natural => natural_choice(direction, cargo, player, pheromones, foods, colonies, rolls),
    }
}

impl Player {
    /// The action this faction's policy picks for the given draws.
    pub fn decide(
        &self,
        direction: &Direction,
        cargo: &Cargo,
        player: Player,
        pheromones: &[(Offset, Pheromone, Player)],
        food: &[(Offset, Food)],
        colonies: &[(Offset, Player)],
        rolls: Rolls,
    ) -> (r: AntAction)
        ensures
            r == player_choice(*self, *direction, *cargo, player, pheromones@, food@, colonies@, rolls),
    {
        match self {
            Player::Random => Random::decide(rolls),
            Player::Natural => Natural::decide(direction, cargo, player, pheromones, food, colonies, rolls),
        }
    }

    /// The action this faction's policy picks, with fresh random draws.
    pub fn ant_action(
        &self,
        direction: &Direction,
        speed: Speed,
        age: Age,
        cargo: &Cargo,
        player: Player,
        abilities: &Abilities,
        pheromones: &[(Offset, Pheromone, Player)],
        food: &[(Offset, Food)],
        colonies: &[(Offset, Player)],
    ) -> (r: AntAction)
        ensures
            exists|rolls: Rolls|
                rolls.action < ROLL_RANGE && rolls.angle < ROLL_RANGE && rolls.pick < ROLL_RANGE
                    && r == #[trigger] player_choice(
                    *self,
                    *direction,
                    *cargo,
                    player,
                    pheromones@,
                    food@,
                    colonies@,
                    rolls,
                ),
    {
        let rolls = Rolls::draw();
        self.decide(direction, cargo, player, pheromones, food, colonies, rolls)
    }
}

} // verus!
