use antsim::ant::{Abilities, Ant, AntAction, Cargo, CargoType, Speed, Vision};
use antsim::colony::Colony;
use antsim::common::{Age, Food, Pheromone, Player};
use antsim::food::FoodSource;
use antsim::geometry::{Direction, Offset, Point};
use antsim::perception::Perception;
use antsim::pheromone::TrailMarker;
use antsim::player::Rolls;
use antsim::players::{get_nearest_food, get_own_pheromones, get_pheromone_attraction, Natural, Random};

fn ant_at(x: i32, y: i32, heading: u32) -> Ant {
    Ant {
        position: Point { x, y },
        direction: Direction { heading },
        speed: Speed(150_000),
        age: Age(0),
        player: Player::Natural,
        cargo: Cargo::Empty,
        abilities: Abilities { vision: Vision { distance: 50_000 }, speed: 300_000 },
    }
}

fn rolls(action: u32, angle: u32, pick: u32) -> Rolls {
    Rolls { action, angle, pick }
}

fn marker(x: i32, y: i32, pheromone: Pheromone, player: Player) -> TrailMarker {
    TrailMarker { position: Point { x, y }, pheromone, player, age: Age(0) }
}

#[test]
fn forager_sees_food_ahead_and_picks_it_up() {
    let ant = ant_at(0, 0, 90);
    let foods = vec![FoodSource::new(Point { x: 0, y: 5000 }, Food::Fungi, 500)];
    let seen = Perception::of(&ant, &[], &foods, &[]);
    assert_eq!(seen.foods, vec![(Offset { x: 0, y: 5000 }, Food::Fungi)]);
    let action = Natural::decide(
        &ant.direction,
        &ant.cargo,
        ant.player,
        &seen.pheromones,
        &seen.foods,
        &seen.colonies,
        rolls(9999, 0, 0),
    );
    assert_eq!(action, AntAction::PickupCargo(CargoType::Food(Food::Fungi), 10));
}

#[test]
fn forager_turns_toward_food_out_of_reach() {
    let ant = ant_at(0, 0, 90);
    let foods = vec![FoodSource::new(Point { x: 30_000, y: 30_000 }, Food::Fungi, 500)];
    let seen = Perception::of(&ant, &[], &foods, &[]);
    assert_eq!(seen.foods.len(), 1);
    let action = Natural::decide(
        &ant.direction,
        &ant.cargo,
        ant.player,
        &seen.pheromones,
        &seen.foods,
        &seen.colonies,
        rolls(0, 0, 0),
    );
    assert_eq!(action, AntAction::Rotate(-30));
    let mut d = ant.direction;
    d.rotate(-30);
    assert!(d.angle_to(45) < ant.direction.angle_to(45));
    assert_eq!(d.angle_to(45), 15);
}

#[test]
fn forager_facing_food_out_of_reach_keeps_heading() {
    let ant = ant_at(0, 0, 90);
    let seen = vec![(Offset { x: 0, y: 30_000 }, Food::Fungi)];
    let action = Natural::decide(&ant.direction, &ant.cargo, ant.player, &[], &seen, &[], rolls(0, 0, 0));
    assert_eq!(action, AntAction::Rotate(0));
}

#[test]
fn perception_excludes_behind_side_and_far() {
    let ant = ant_at(0, 0, 90);
    let foods = vec![
        FoodSource::new(Point { x: 0, y: -5000 }, Food::Fungi, 1),
        FoodSource::new(Point { x: 5000, y: 0 }, Food::Fungi, 1),
        FoodSource::new(Point { x: 0, y: 50_000 }, Food::Fungi, 1),
        FoodSource::new(Point { x: 0, y: 49_999 }, Food::Fungi, 1),
        FoodSource::new(Point { x: 0, y: -500_000 }, Food::Fungi, 1),
    ];
    let seen = Perception::nearby_foods(&ant, &foods);
    assert_eq!(seen, vec![(Offset { x: 0, y: 49_999 }, Food::Fungi)]);
}

#[test]
fn perception_lists_markers_and_colonies_in_order() {
    let ant = ant_at(100, 100, 0);
    let markers = vec![
        marker(1100, 100, Pheromone::Red, Player::Natural),
        marker(-900, 100, Pheromone::Green, Player::Natural),
        marker(2100, 1100, Pheromone::Green, Player::Random),
    ];
    let seen = Perception::nearby_pheromones(&ant, &markers);
    assert_eq!(
        seen,
        vec![
            (Offset { x: 1000, y: 0 }, Pheromone::Red, Player::Natural),
            (Offset { x: 2000, y: 1000 }, Pheromone::Green, Player::Random),
        ]
    );
    let colonies = vec![Colony::new(Point { x: 5100, y: 100 }, Player::Random)];
    assert_eq!(
        Perception::nearby_colonies(&ant, &colonies),
        vec![(Offset { x: 5000, y: 0 }, Player::Random)]
    );
}

#[test]
fn home_in_reach_means_drop_cargo() {
    let d = Direction { heading: 0 };
    let cargo = Cargo::Food { typ: Food::Fungi, amount: 3 };
    let colonies = vec![(Offset { x: 5000, y: 0 }, Player::Natural)];
    let action = Natural::decide(&d, &cargo, Player::Natural, &[], &[], &colonies, rolls(0, 0, 0));
    assert_eq!(action, AntAction::DropCargo);
}

#[test]
fn home_of_another_player_is_ignored() {
    let d = Direction { heading: 0 };
    let cargo = Cargo::Food { typ: Food::Fungi, amount: 3 };
    let colonies = vec![(Offset { x: 5000, y: 0 }, Player::Random)];
    let action = Natural::decide(&d, &cargo, Player::Natural, &[], &[], &colonies, rolls(0, 0, 0));
    assert_eq!(action, AntAction::DropPheromone(Pheromone::Green));
}

#[test]
fn far_home_off_course_draws_a_turn() {
    let d = Direction { heading: 0 };
    let cargo = Cargo::Food { typ: Food::Fungi, amount: 3 };
    let colonies = vec![(Offset { x: 0, y: 40_000 }, Player::Natural)];
    let action = Natural::decide(&d, &cargo, Player::Natural, &[], &[], &colonies, rolls(0, 0, 0));
    assert_eq!(action, AntAction::Rotate(30));
}

#[test]
fn far_home_straight_ahead_falls_through() {
    let d = Direction { heading: 0 };
    let cargo = Cargo::Food { typ: Food::Fungi, amount: 3 };
    let colonies = vec![(Offset { x: 40_000, y: 1000 }, Player::Natural)];
    let action = Natural::decide(&d, &cargo, Player::Natural, &[], &[], &colonies, rolls(0, 0, 0));
    assert_eq!(action, AntAction::DropPheromone(Pheromone::Green));
}

#[test]
fn loaded_ant_branches_on_its_roll() {
    let d = Direction { heading: 0 };
    let cargo = Cargo::Food { typ: Food::Fungi, amount: 3 };
    let green_marker = vec![(Offset { x: 0, y: 1000 }, Pheromone::Green, Player::Natural)];
    let red_marker = vec![(Offset { x: 0, y: 1000 }, Pheromone::Red, Player::Natural)];
    let decide = |ph: &[(Offset, Pheromone, Player)], r: Rolls| {
        Natural::decide(&d, &cargo, Player::Natural, ph, &[], &[], r)
    };
    assert_eq!(decide(&[], rolls(299, 0, 0)), AntAction::DropPheromone(Pheromone::Green));
    assert_eq!(decide(&[], rolls(300, 0, 0)), AntAction::Rotate(-18));
    assert_eq!(decide(&[], rolls(6299, 36, 0)), AntAction::Rotate(18));
    assert_eq!(decide(&green_marker, rolls(6300, 20, 0)), AntAction::Rotate(2));
    assert_eq!(decide(&red_marker, rolls(6300, 20, 0)), AntAction::Rotate(30));
}

#[test]
fn empty_ant_without_food_follows_green_markers() {
    let d = Direction { heading: 90 };
    let ph = vec![
        (Offset { x: 1000, y: 1000 }, Pheromone::Green, Player::Natural),
        (Offset { x: -1000, y: 1000 }, Pheromone::Red, Player::Natural),
    ];
    let decide = |r: Rolls| Natural::decide(&d, &Cargo::Empty, Player::Natural, &ph, &[], &[], r);
    assert_eq!(decide(rolls(0, 0, 0)), AntAction::DropPheromone(Pheromone::Red));
    assert_eq!(decide(rolls(1000, 18, 0)), AntAction::Rotate(0));
    assert_eq!(decide(rolls(7000, 0, 0)), AntAction::Rotate(-30));
}

#[test]
fn markers_that_cancel_out_give_a_random_turn() {
    let d = Direction { heading: 90 };
    let ph = vec![
        (Offset { x: 1000, y: 0 }, Pheromone::Green, Player::Natural),
        (Offset { x: -1000, y: 0 }, Pheromone::Green, Player::Natural),
    ];
    let action = Natural::decide(&d, &Cargo::Empty, Player::Natural, &ph, &[], &[], rolls(7000, 5, 0));
    assert_eq!(action, AntAction::Rotate(-13));
}

#[test]
fn random_policy_turns_or_marks() {
    assert_eq!(Random::decide(rolls(0, 0, 0)), AntAction::Rotate(-7));
    assert_eq!(Random::decide(rolls(9899, 14, 0)), AntAction::Rotate(7));
    assert_eq!(Random::decide(rolls(9900, 0, 5001)), AntAction::DropPheromone(Pheromone::Green));
    assert_eq!(Random::decide(rolls(9900, 0, 5000)), AntAction::DropPheromone(Pheromone::Red));
}

#[test]
fn policy_with_fresh_draws_gives_an_allowed_action() {
    let d = Direction { heading: 0 };
    for _ in 0..50 {
        match Random::ant_action(
            &d,
            Speed(0),
            Age(0),
            &Cargo::Empty,
            Player::Random,
            &Abilities { vision: Vision { distance: 1 }, speed: 1 },
            &[],
            &[],
            &[],
        ) {
            AntAction::Rotate(t) => assert!((-7..=7).contains(&t)),
            AntAction::DropPheromone(_) => {}
            other => panic!("unexpected {:?}", other),
        }
    }
    let food = vec![(Offset { x: 0, y: 3000 }, Food::Fungi)];
    let a = Natural::ant_action(
        &Direction { heading: 90 },
        Speed(0),
        Age(0),
        &Cargo::Empty,
        Player::Natural,
        &Abilities { vision: Vision { distance: 1 }, speed: 1 },
        &[],
        &food,
        &[],
    );
    assert_eq!(a, AntAction::PickupCargo(CargoType::Food(Food::Fungi), 10));
    let b = Player::Natural.ant_action(
        &Direction { heading: 90 },
        Speed(0),
        Age(0),
        &Cargo::Empty,
        Player::Natural,
        &Abilities { vision: Vision { distance: 1 }, speed: 1 },
        &[],
        &food,
        &[],
    );
    assert_eq!(b, a);
}

#[test]
fn own_pheromones_filter_by_player_and_kind() {
    let ph = vec![
        (Offset { x: 1, y: 0 }, Pheromone::Green, Player::Natural),
        (Offset { x: 2, y: 0 }, Pheromone::Red, Player::Natural),
        (Offset { x: 3, y: 0 }, Pheromone::Green, Player::Random),
        (Offset { x: 4, y: 0 }, Pheromone::Green, Player::Natural),
    ];
    assert_eq!(
        get_own_pheromones(&ph, &Player::Natural, &Pheromone::Green),
        vec![Offset { x: 1, y: 0 }, Offset { x: 4, y: 0 }]
    );
    assert_eq!(get_own_pheromones(&ph, &Player::Random, &Pheromone::Red), vec![]);
}

#[test]
fn attraction_weights_by_inverse_square_distance() {
    assert_eq!(get_pheromone_attraction(&[]), (0, 0));
    assert_eq!(get_pheromone_attraction(&[Offset { x: 1000, y: 0 }]), (100_000_000, 0));
    assert_eq!(
        get_pheromone_attraction(&[Offset { x: 1000, y: 0 }, Offset { x: -2000, y: 0 }]),
        (75_000_000, 0)
    );
    assert_eq!(
        get_pheromone_attraction(&[Offset { x: 1000, y: 0 }, Offset { x: 0, y: 2000 }]),
        (100_000_000, 25_000_000)
    );
    assert_eq!(get_pheromone_attraction(&[Offset { x: 3, y: -4 }]), (2_400_000_000_000, -3_200_000_000_000));
    assert_eq!(get_pheromone_attraction(&[Offset { x: 0, y: 0 }]), (0, 0));
}

#[test]
fn nearest_food_prefers_the_later_of_equals() {
    assert_eq!(get_nearest_food(&[]), None);
    let foods = vec![
        (Offset { x: 300, y: 0 }, Food::Fungi),
        (Offset { x: 0, y: 100 }, Food::Fungi),
        (Offset { x: -100, y: 0 }, Food::Fungi),
        (Offset { x: 500, y: 0 }, Food::Fungi),
    ];
    assert_eq!(get_nearest_food(&foods), Some((Offset { x: -100, y: 0 }, Food::Fungi)));
}
