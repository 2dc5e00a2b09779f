use space_battle::boids::{move_boids, rotate_towards_target, Boid, BoidGroup, Target};
use space_battle::geometry::{Direction, Pose, Position};
use space_battle::ships::Steer;
use space_battle::units::DIRECTION_ONE;

fn at(x: i32, y: i32, z: i32) -> Position {
    Position { x, y, z }
}

fn boid(position: Position, forward: Direction, group: BoidGroup) -> Boid {
    Boid { pose: Pose { position, forward }, group }
}

#[test]
fn the_first_group_is_the_default() {
    assert_eq!(BoidGroup::default(), BoidGroup::Red);
}

#[test]
fn the_flock_turns_toward_the_one_target_of_the_scene() {
    let targets = vec![Target { position: at(5, 6, 7) }];
    assert_eq!(
        rotate_towards_target(&targets, 100_000_000),
        Steer::LookAt { target: at(5, 6, 7), max_angle: 4_000_000_000 }
    );
    assert_eq!(
        rotate_towards_target(&targets, 0),
        Steer::LookAt { target: at(5, 6, 7), max_angle: 0 }
    );
}

#[test]
fn the_flock_holds_its_heading_without_a_target_or_with_several() {
    assert_eq!(rotate_towards_target(&vec![], 100_000_000), Steer::Hold);
    let two = vec![Target { position: at(5, 6, 7) }, Target { position: at(1, 1, 1) }];
    assert_eq!(rotate_towards_target(&two, 100_000_000), Steer::Hold);
    let same = vec![Target { position: at(1, 1, 1) }, Target { position: at(1, 1, 1) }];
    assert_eq!(rotate_towards_target(&same, 100_000_000), Steer::Hold);
}

#[test]
fn move_boids_flies_every_member_at_fifteen_units_per_second() {
    let east = Direction { x: DIRECTION_ONE, y: 0, z: 0 };
    let down = Direction { x: 0, y: -DIRECTION_ONE, z: 0 };
    let mut flock = vec![
        boid(at(0, 0, 0), east, BoidGroup::Blue),
        boid(at(10, 20, 30), down, BoidGroup::Yellow),
    ];
    move_boids(&mut flock, 200_000_000);
    assert_eq!(
        flock,
        vec![
            boid(at(300_000, 0, 0), east, BoidGroup::Blue),
            boid(at(10, 20 - 300_000, 30), down, BoidGroup::Yellow),
        ]
    );
    move_boids(&mut flock, 0);
    assert_eq!(flock[0], boid(at(300_000, 0, 0), east, BoidGroup::Blue));
    let mut none: Vec<Boid> = vec![];
    move_boids(&mut none, 1);
    assert!(none.is_empty());
}
