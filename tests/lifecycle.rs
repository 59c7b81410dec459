use antsim::action::Spawn;
use antsim::ant::{Abilities, Ant, AntAction, AntPlugin, Cargo, CargoType, Speed, Vision};
use antsim::colony::{Colony, ColonyPlugin, FoodStorage};
use antsim::common::{Age, CommonPlugin, Food, Pheromone, Player};
use antsim::food::{FoodPlugin, FoodSource};
use antsim::geometry::{Direction, Point};
use antsim::pheromone::{PheromonePlugin, TrailMarker};
use antsim::player::Rolls;
use antsim::world::{World, WorldPlugin, WorldSize};
use std::sync::atomic::Ordering;

fn ant_at(x: i32, y: i32, heading: u32) -> Ant {
    Ant {
        position: Point { x, y },
        direction: Direction { heading },
        speed: Speed(150_000),
        age: Age(0),
        player: Player::Natural,
        cargo: Cargo::Empty,
        abilities: Abilities { vision: Vision { distance: 50_000 }, speed: 300_000 },
    }
}

#[test]
fn marker_expires_in_the_tick_that_takes_it_past_three_seconds() {
    let mut markers = vec![Pheromone::spawn(Pheromone::Red, Player::Natural, Point { x: 1, y: 2 })];
    assert_eq!(markers[0].age, Age(0));
    for tick in 1..=4u64 {
        PheromonePlugin::increase_age(&mut markers, 1000);
        if tick < 4 {
            assert_eq!(markers[0].age, Age(tick * 1000));
        }
        PheromonePlugin::pheromone_removal(&mut markers);
        if tick <= 3 {
            assert_eq!(markers.len(), 1, "removed early at tick {}", tick);
        } else {
            assert!(markers.is_empty());
        }
    }
}

#[test]
fn marker_age_grows_by_elapsed_time() {
    let mut markers = vec![TrailMarker {
        position: Point { x: 0, y: 0 },
        pheromone: Pheromone::Green,
        player: Player::Random,
        age: Age(17),
    }];
    PheromonePlugin::increase_age(&mut markers, 250);
    assert_eq!(markers[0].age, Age(267));
    let mut old = Age(u64::MAX - 1);
    old.advance(5);
    assert_eq!(old, Age(u64::MAX));
}

#[test]
fn removal_keeps_fresh_markers_in_order() {
    let m = |x: i32, age: u64| TrailMarker {
        position: Point { x, y: 0 },
        pheromone: Pheromone::Green,
        player: Player::Natural,
        age: Age(age),
    };
    let mut markers = vec![m(1, 3001), m(2, 3000), m(3, 0), m(4, 9999), m(5, 12)];
    PheromonePlugin::pheromone_removal(&mut markers);
    assert_eq!(markers, vec![m(2, 3000), m(3, 0), m(5, 12)]);
}

#[test]
fn depleted_nodes_are_removed() {
    let mut foods = vec![
        FoodSource::new(Point { x: 1, y: 0 }, Food::Fungi, 0),
        FoodSource::new(Point { x: 2, y: 0 }, Food::Fungi, 5),
        FoodSource::new(Point { x: 3, y: 0 }, Food::Fungi, 0),
        FoodSource::new(Point { x: 4, y: 0 }, Food::Fungi, 7),
    ];
    FoodPlugin::food_removal(&mut foods);
    let xs: Vec<i32> = foods.iter().map(|f| f.position.x).collect();
    assert_eq!(xs, vec![2, 4]);
    assert_eq!(foods[1].amount.0.load(Ordering::SeqCst), 7);
}

#[test]
fn storage_accumulates_and_refuses_overflow() {
    let mut s = FoodStorage::new();
    assert_eq!(s.get(Food::Fungi), 0);
    assert!(s.deposit(Food::Fungi, 5));
    assert!(s.deposit(Food::Fungi, 3));
    assert_eq!(s.get(Food::Fungi), 8);
    assert_eq!(s.0.len(), 1);
    assert!(!s.deposit(Food::Fungi, u64::MAX));
    assert_eq!(s.get(Food::Fungi), 8);
}

#[test]
fn home_base_absorbs_nearby_nodes_only() {
    let mut colonies = vec![
        Colony::new(Point { x: 0, y: 0 }, Player::Natural),
        Colony::new(Point { x: 1000, y: 0 }, Player::Random),
    ];
    let mut foods = vec![
        FoodSource::new(Point { x: 5000, y: 0 }, Food::Fungi, 40),
        FoodSource::new(Point { x: 100_000, y: 0 }, Food::Fungi, 9),
        FoodSource::new(Point { x: 0, y: 9999 }, Food::Fungi, 2),
    ];
    assert_eq!(ColonyPlugin::absorbing_colony(&colonies, &Point { x: 5000, y: 0 }), Some(0));
    assert_eq!(ColonyPlugin::absorbing_colony(&colonies, &Point { x: 10_500, y: 0 }), Some(1));
    assert_eq!(ColonyPlugin::absorbing_colony(&colonies, &Point { x: 0, y: 10_000 }), None);
    ColonyPlugin::fill_colony_storage(&mut colonies, &mut foods);
    assert_eq!(colonies[0].food_storage.get(Food::Fungi), 42);
    assert_eq!(colonies[1].food_storage.get(Food::Fungi), 0);
    assert_eq!(foods.len(), 1);
    assert_eq!(foods[0].position, Point { x: 100_000, y: 0 });
}

#[test]
fn apply_rotate_accelerate_and_marker() {
    let mut a = ant_at(7, 8, 10);
    assert_eq!(a.apply(AntAction::Rotate(-20), &[]), None);
    assert_eq!(a.direction.heading, 350);
    assert_eq!(a.apply(AntAction::Accelerate(42), &[]), None);
    assert_eq!(a.speed, Speed(42));
    let spawn = a.apply(AntAction::DropPheromone(Pheromone::Red), &[]);
    assert_eq!(
        spawn,
        Some(Spawn::Marker(TrailMarker {
            position: Point { x: 7, y: 8 },
            pheromone: Pheromone::Red,
            player: Player::Natural,
            age: Age(0),
        }))
    );
}

#[test]
fn apply_drop_cargo_spawns_a_node() {
    let mut a = ant_at(7, 8, 10);
    a.cargo = Cargo::Food { typ: Food::Fungi, amount: 6 };
    let spawn = a.apply(AntAction::DropCargo, &[]);
    assert_eq!(spawn, Some(Spawn::Food { position: Point { x: 7, y: 8 }, food: Food::Fungi, amount: 6 }));
    assert_eq!(a.cargo, Cargo::Empty);
    assert_eq!(a.apply(AntAction::DropCargo, &[]), None);
}

#[test]
fn apply_pickup_takes_from_the_node_in_reach() {
    let mut a = ant_at(0, 0, 90);
    let foods = vec![
        FoodSource::new(Point { x: 0, y: 20_000 }, Food::Fungi, 100),
        FoodSource::new(Point { x: 0, y: 5000 }, Food::Fungi, 500),
    ];
    assert_eq!(a.find_pickup(&foods, Food::Fungi), Some(1));
    assert_eq!(a.apply(AntAction::PickupCargo(CargoType::Food(Food::Fungi), 10), &foods), None);
    assert_eq!(a.cargo, Cargo::Food { typ: Food::Fungi, amount: 10 });
    assert_eq!(foods[1].amount.0.load(Ordering::SeqCst), 490);
    assert_eq!(foods[0].amount.0.load(Ordering::SeqCst), 100);
    a.apply(AntAction::PickupCargo(CargoType::Food(Food::Fungi), 10), &foods);
    assert_eq!(a.cargo, Cargo::Food { typ: Food::Fungi, amount: 10 });
    assert_eq!(foods[1].amount.0.load(Ordering::SeqCst), 490);
}

#[test]
fn apply_pickup_of_an_empty_node_loads_nothing() {
    let mut a = ant_at(0, 0, 90);
    let foods = vec![FoodSource::new(Point { x: 0, y: 5000 }, Food::Fungi, 0)];
    a.apply(AntAction::PickupCargo(CargoType::Food(Food::Fungi), 10), &foods);
    assert_eq!(a.cargo, Cargo::Empty);
    let behind = vec![FoodSource::new(Point { x: 0, y: -5000 }, Food::Fungi, 50)];
    assert_eq!(a.find_pickup(&behind, Food::Fungi), None);
    a.apply(AntAction::PickupCargo(CargoType::Food(Food::Fungi), 10), &behind);
    assert_eq!(a.cargo, Cargo::Empty);
    assert_eq!(behind[0].amount.0.load(Ordering::SeqCst), 50);
}

#[test]
fn act_with_given_draws_picks_up() {
    let mut a = ant_at(0, 0, 90);
    let foods = vec![FoodSource::new(Point { x: 0, y: 5000 }, Food::Fungi, 4)];
    let (action, spawn) = a.act_with(&[], &foods, &[], Rolls { action: 0, angle: 0, pick: 0 });
    assert_eq!(action, AntAction::PickupCargo(CargoType::Food(Food::Fungi), 10));
    assert_eq!(spawn, None);
    assert_eq!(a.cargo, Cargo::Food { typ: Food::Fungi, amount: 4 });
    assert_eq!(foods[0].amount.0.load(Ordering::SeqCst), 0);
}

#[test]
fn commit_appends_spawns() {
    let mut w = World {
        size: WorldSize::new(1_000_000, 1_000_000).unwrap(),
        ants: vec![],
        colonies: vec![],
        foods: vec![],
        markers: vec![],
    };
    let m = TrailMarker { position: Point { x: 1, y: 1 }, pheromone: Pheromone::Green, player: Player::Natural, age: Age(0) };
    w.commit(vec![Spawn::Marker(m), Spawn::Food { position: Point { x: 2, y: 2 }, food: Food::Fungi, amount: 9 }]);
    assert_eq!(w.markers, vec![m]);
    assert_eq!(w.foods.len(), 1);
    assert_eq!(w.foods[0].amount.0.load(Ordering::SeqCst), 9);
    assert_eq!(w.foods[0].position, Point { x: 2, y: 2 });
}

#[test]
fn setup_places_everything() {
    let size = WorldSize::new(1_280_000, 720_000).unwrap();
    let w = WorldPlugin::setup(size, 30, 12);
    assert_eq!(w.ants.len(), 30);
    assert_eq!(w.foods.len(), 12);
    assert_eq!(w.colonies.len(), 2);
    assert_eq!(w.colonies[0].player, Player::Natural);
    assert_eq!(w.colonies[1].player, Player::Random);
    for a in &w.ants {
        assert_eq!(a.position, Point { x: 0, y: 0 });
        assert!(a.direction.heading < 360);
        assert!((150_000..220_000).contains(&a.speed.0));
        assert_eq!(a.cargo, Cargo::Empty);
    }
    for f in &w.foods {
        assert!(2 * (f.position.x as i64) >= -1_280_000 && 2 * (f.position.x as i64) <= 1_280_000);
        assert!(2 * (f.position.y as i64) >= -720_000 && 2 * (f.position.y as i64) <= 720_000);
        assert_eq!(f.amount.0.load(Ordering::SeqCst), 500);
    }
    assert!(w.markers.is_empty());
}

#[test]
fn ticks_keep_ants_inside_and_markers_fresh() {
    let size = WorldSize::new(1_280_000, 720_000).unwrap();
    let mut w = WorldPlugin::setup(size, 100, 20);
    let start: u64 = w.foods.iter().map(|f| f.amount.0.load(Ordering::SeqCst)).sum();
    for _ in 0..600 {
        WorldPlugin::tick(&mut w, 16);
        assert_eq!(w.ants.len(), 100);
        for a in &w.ants {
            assert!(2 * (a.position.x as i64) >= -1_280_000 && 2 * (a.position.x as i64) <= 1_280_000);
            assert!(2 * (a.position.y as i64) >= -720_000 && 2 * (a.position.y as i64) <= 720_000);
        }
        for m in &w.markers {
            assert!(m.age.0 <= 3000);
        }
    }
    let on_nodes: u64 = w.foods.iter().map(|f| f.amount.0.load(Ordering::SeqCst)).sum();
    let carried: u64 = w
        .ants
        .iter()
        .map(|a| match a.cargo {
            Cargo::Food { amount, .. } => amount,
            Cargo::Empty => 0,
        })
        .sum();
    let stored: u64 = w.colonies.iter().map(|c| c.food_storage.get(Food::Fungi)).sum();
    assert_eq!(on_nodes + carried + stored, start);
}

#[test]
fn systems_age_and_move_every_ant() {
    let size = WorldSize::new(1_000_000, 1_000_000).unwrap();
    let mut w = World { size, ants: vec![ant_at(0, 0, 0)], colonies: vec![], foods: vec![], markers: vec![] };
    CommonPlugin::increase_age(&mut w, 40);
    assert_eq!(w.ants[0].age, Age(40));
    AntPlugin::movement(&mut w.ants, 1000);
    assert_eq!(w.ants[0].position, Point { x: 150_000, y: 0 });
    w.ants[0].position.x = 490_000;
    AntPlugin::confine_ant_movement(&mut w.ants, &size);
    assert_eq!(w.ants[0].position.x, 470_000);
    assert_eq!(w.ants[0].direction.heading, 180);
}

#[test]
fn node_between_two_bases_counts_once() {
    let mut colonies = vec![
        Colony::new(Point { x: 0, y: 0 }, Player::Natural),
        Colony::new(Point { x: 1000, y: 0 }, Player::Random),
    ];
    let mut foods = vec![FoodSource::new(Point { x: 500, y: 0 }, Food::Fungi, 30)];
    ColonyPlugin::fill_colony_storage(&mut colonies, &mut foods);
    assert_eq!(colonies[0].food_storage.get(Food::Fungi), 30);
    assert_eq!(colonies[1].food_storage.get(Food::Fungi), 0);
    assert!(foods.is_empty());
}

#[test]
fn refused_drain_leaves_the_node() {
    let mut colonies = vec![Colony::new(Point { x: 0, y: 0 }, Player::Natural)];
    assert!(colonies[0].food_storage.deposit(Food::Fungi, u64::MAX - 5));
    let mut foods = vec![FoodSource::new(Point { x: 100, y: 0 }, Food::Fungi, 6)];
    ColonyPlugin::fill_colony_storage(&mut colonies, &mut foods);
    assert_eq!(colonies[0].food_storage.get(Food::Fungi), u64::MAX - 5);
    assert_eq!(foods.len(), 1);
    assert_eq!(foods[0].amount.0.load(Ordering::SeqCst), 6);
}
