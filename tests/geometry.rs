use antsim::ant::{Abilities, Ant, Cargo, Speed, Vision};
use antsim::common::{Age, Player};
use antsim::geometry::{heading_toward, sqrt_floor_of, Axis, Direction, Offset, Point};
use antsim::world::WorldSize;

fn ant_at(x: i32, y: i32, heading: u32, speed: u32) -> Ant {
    Ant {
        position: Point { x, y },
        direction: Direction { heading },
        speed: Speed(speed),
        age: Age(0),
        player: Player::Natural,
        cargo: Cargo::Empty,
        abilities: Abilities { vision: Vision { distance: 50_000 }, speed: 300_000 },
    }
}

#[test]
fn facing_vectors_of_whole_degrees() {
    assert_eq!(Direction { heading: 0 }.vector(), Offset { x: 10000, y: 0 });
    assert_eq!(Direction { heading: 90 }.vector(), Offset { x: 0, y: 10000 });
    assert_eq!(Direction { heading: 180 }.vector(), Offset { x: -10000, y: 0 });
    assert_eq!(Direction { heading: 270 }.vector(), Offset { x: 0, y: -10000 });
    assert_eq!(Direction { heading: 30 }.vector(), Offset { x: 8660, y: 5000 });
    assert_eq!(Direction { heading: 390 }.vector(), Offset { x: 8660, y: 5000 });
    assert_eq!(Direction { heading: 225 }.vector(), Offset { x: -7071, y: -7071 });
}

#[test]
fn rotation_wraps_around_a_full_turn() {
    let mut d = Direction { heading: 350 };
    d.rotate(20);
    assert_eq!(d.heading, 10);
    d.rotate(-20);
    assert_eq!(d.heading, 350);
    let mut e = Direction { heading: 0 };
    e.rotate(-725);
    assert_eq!(e.heading, 355);
    e.rotate(i32::MIN);
    assert_eq!(e.heading, (355 + 360 - (2147483648u64 % 360) as u32) % 360);
}

#[test]
fn bounce_mirrors_across_the_wall() {
    let d = Direction { heading: 30 };
    assert_eq!(d.bounce_rotation(Axis::X), 120);
    assert_eq!(d.bounce_rotation(Axis::Y), -60);
    let mut e = Direction { heading: 200 };
    let t = e.bounce_rotate(Axis::X);
    assert_eq!(e.heading, 340);
    assert_eq!(t, 140);
}

#[test]
fn bounce_keeps_the_facing_vector_length() {
    for h in 0..360u32 {
        let before = Direction { heading: h }.vector();
        let mut x = Direction { heading: h };
        x.bounce_rotate(Axis::X);
        assert_eq!(x.vector(), Offset { x: -before.x, y: before.y });
        let mut y = Direction { heading: h };
        y.bounce_rotate(Axis::Y);
        assert_eq!(y.vector(), Offset { x: before.x, y: -before.y });
        let len = |o: Offset| o.x * o.x + o.y * o.y;
        assert_eq!(len(x.vector()), len(before));
        assert_eq!(len(y.vector()), len(before));
    }
}

#[test]
fn heading_toward_vectors() {
    assert_eq!(heading_toward(0, 5), 90);
    assert_eq!(heading_toward(-3, 0), 180);
    assert_eq!(heading_toward(1, 1), 45);
    assert_eq!(heading_toward(0, -7), 270);
    assert_eq!(heading_toward(10000, 5774), 30);
}

#[test]
fn turn_toward_is_shortest_and_bounded() {
    let d = Direction { heading: 0 };
    assert_eq!(d.turn_toward(90, 30), 30);
    assert_eq!(d.turn_toward(270, 30), -30);
    assert_eq!(d.turn_toward(20, 30), 20);
    assert_eq!(d.turn_toward(180, 180), 180);
    assert_eq!(d.angle_to(200), 160);
    assert_eq!(d.angle_to(90), 90);
}

#[test]
fn shorter_than_is_strict() {
    let o = Offset { x: 3, y: 4 };
    assert!(o.shorter_than(6));
    assert!(!o.shorter_than(5));
    assert_eq!(o.length_squared(), 25);
    let far = Offset { x: i64::MIN, y: i64::MIN };
    assert!(far.shorter_than(u64::MAX));
    assert!(!far.shorter_than(1u64 << 63));
    assert_eq!(far.length_squared(), 1u128 << 127);
}

#[test]
fn movement_follows_heading_and_speed() {
    let mut a = ant_at(0, 0, 0, 100_000);
    a.movement(1000);
    assert_eq!(a.position, Point { x: 100_000, y: 0 });
    let mut b = ant_at(0, 0, 90, 150_000);
    b.movement(16);
    assert_eq!(b.position, Point { x: 0, y: 2400 });
    let mut c = ant_at(10, 10, 180, 1000);
    c.movement(1000);
    assert_eq!(c.position, Point { x: -990, y: 10 });
    let mut d = ant_at(0, 0, 30, 200_000);
    d.movement(100);
    assert_eq!(d.position, Point { x: 17320, y: 10000 });
}

#[test]
fn movement_saturates_at_the_coordinate_range() {
    let mut a = ant_at(i32::MAX - 5, 0, 0, 1_000_000);
    a.movement(1000);
    assert_eq!(a.position.x, i32::MAX);
}

#[test]
fn confinement_mirrors_past_the_low_wall() {
    let size = WorldSize::new(1_000_000, 800_000).unwrap();
    let mut a = ant_at(-495_000, 0, 180, 1000);
    a.confine(&size);
    assert_eq!(a.position, Point { x: -465_000, y: 0 });
    assert_eq!(a.direction.heading, 0);
    assert!(2 * a.position.x as i64 >= -1_000_000);
}

#[test]
fn confinement_mirrors_past_the_high_wall() {
    let size = WorldSize::new(1_000_000, 800_000).unwrap();
    let mut a = ant_at(0, 395_000, 90, 1000);
    a.confine(&size);
    assert_eq!(a.position, Point { x: 0, y: 365_000 });
    assert_eq!(a.direction.heading, 270);
}

#[test]
fn confinement_bounces_off_a_corner() {
    let size = WorldSize::new(1_000_000, 800_000).unwrap();
    let mut a = ant_at(510_000, -410_000, 315, 1000);
    a.confine(&size);
    assert_eq!(a.position, Point { x: 450_000, y: -350_000 });
    assert_eq!(a.direction.heading, 135);
    assert!(2 * (a.position.x as i64) <= 1_000_000 && 2 * (a.position.x as i64) >= -1_000_000);
    assert!(2 * (a.position.y as i64) <= 800_000 && 2 * (a.position.y as i64) >= -800_000);
}

#[test]
fn confinement_leaves_the_middle_alone() {
    let size = WorldSize::new(1_000_000, 800_000).unwrap();
    let mut a = ant_at(100, -200, 77, 1000);
    a.confine(&size);
    assert_eq!(a, ant_at(100, -200, 77, 1000));
}

#[test]
fn world_size_rejects_bad_extents() {
    assert_eq!(WorldSize::new(0, 100_000), None);
    assert_eq!(WorldSize::new(40_000, 100_000), None);
    assert_eq!(WorldSize::new(100_000, 0x4000_0001), None);
    assert_eq!(WorldSize::new(40_001, 0x4000_0000), Some(WorldSize(40_001, 0x4000_0000)));
}

#[test]
fn integer_square_roots() {
    assert_eq!(sqrt_floor_of(0), 0);
    assert_eq!(sqrt_floor_of(1), 1);
    assert_eq!(sqrt_floor_of(24), 4);
    assert_eq!(sqrt_floor_of(25), 5);
    assert_eq!(sqrt_floor_of(1_000_000), 1000);
    assert_eq!(sqrt_floor_of(1u128 << 127), 13043817825332782212);
}
