use space_battle::geometry::{Direction, Pose, Position};
use space_battle::lasers::{
    gun_on_add, laser_hit_detect, move_lasers, shoot, volley, Gun, Laser, Ray, COOLDOWN,
    LASER_LIFETIME, LASER_SPEED, RAY_LENGTH,
};
use space_battle::lifetimes::DespawnAfter;
use space_battle::ships::Ship;
use space_battle::spatial::EntityId;
use space_battle::team::Team;

const AHEAD: Direction = Direction { x: 0, y: 0, z: -1_000_000_000 };

fn pose(x: i32, y: i32, z: i32) -> Pose {
    Pose { position: Position { x, y, z }, forward: AHEAD }
}

fn ship(id: u64, gun: Option<Gun>) -> Ship {
    Ship { id: EntityId(id), pose: pose(id as i32, 0, 0), team: Team::Red, gun }
}

fn laser(z: i32) -> Laser {
    Laser { pose: pose(0, 0, z), despawn: DespawnAfter::new(LASER_LIFETIME, 0) }
}

#[test]
fn the_documented_weapon_constants() {
    assert_eq!(COOLDOWN, 5_000_000_000);
    assert_eq!(LASER_LIFETIME, 2_000_000_000);
    assert_eq!(LASER_SPEED, 35);
    assert_eq!(RAY_LENGTH, 50_000);
}

#[test]
fn no_projectile_leaves_before_the_cooldown_is_over() {
    let t0 = 1_000;
    let mut gun = Gun { last_fired: t0 };
    for now in [i64::MIN, 0, t0, t0 + 1, t0 + 4_999_999_999] {
        assert_eq!(shoot(&mut gun, &pose(0, 0, 0), now, COOLDOWN), None);
        assert_eq!(gun, Gun { last_fired: t0 });
        assert!(!gun.ready(now, COOLDOWN));
    }
}

#[test]
fn exactly_one_projectile_leaves_on_the_first_tick_after_the_cooldown() {
    let t0 = 1_000;
    let mut gun = Gun { last_fired: t0 };
    let mut emitted = 0;
    let mut now = 0i64;
    let mut first = None;
    while now <= t0 + COOLDOWN as i64 + 4_000_000_000 {
        if shoot(&mut gun, &pose(0, 0, 0), now, COOLDOWN).is_some() {
            emitted += 1;
            first.get_or_insert(now);
        }
        now += 16_000_000;
    }
    assert_eq!(emitted, 1);
    // the first multiple of 16 ms at or after t0 + 5 s
    assert_eq!(first, Some(5_008_000_000));
    assert_eq!(gun.last_fired, 5_008_000_000);
}

#[test]
fn a_gun_fires_at_the_very_instant_its_cooldown_ends() {
    let mut gun = Gun { last_fired: -3 };
    assert!(gun.ready(4_999_999_997, COOLDOWN));
    let shot = shoot(&mut gun, &pose(1, 2, 3), 4_999_999_997, COOLDOWN);
    assert_eq!(
        shot,
        Some(Laser { pose: pose(1, 2, 3), despawn: DespawnAfter::new(LASER_LIFETIME, 4_999_999_997) })
    );
    assert_eq!(gun.last_fired, 4_999_999_997);
    assert_eq!(shoot(&mut gun, &pose(1, 2, 3), 4_999_999_997, COOLDOWN), None);
}

#[test]
fn a_cooldown_of_zero_fires_on_every_tick_that_is_not_in_the_past() {
    let mut gun = Gun { last_fired: 10 };
    assert_eq!(shoot(&mut gun, &pose(0, 0, 0), 9, 0), None);
    assert!(shoot(&mut gun, &pose(0, 0, 0), 10, 0).is_some());
    assert!(shoot(&mut gun, &pose(0, 0, 0), 10, 0).is_some());
    assert!(shoot(&mut gun, &pose(0, 0, 0), 11, 0).is_some());
}

#[test]
fn the_cooldown_test_holds_at_the_ends_of_time() {
    let mut gun = Gun { last_fired: i64::MAX };
    assert_eq!(shoot(&mut gun, &pose(0, 0, 0), i64::MAX, 1), None);
    assert_eq!(shoot(&mut gun, &pose(0, 0, 0), i64::MAX, u64::MAX), None);
    let mut gun = Gun { last_fired: i64::MIN };
    assert_eq!(shoot(&mut gun, &pose(0, 0, 0), i64::MAX - 1, u64::MAX), None);
    assert!(shoot(&mut gun, &pose(0, 0, 0), i64::MAX, u64::MAX).is_some());
}

#[test]
fn a_projectile_lives_two_seconds() {
    let mut gun = Gun { last_fired: 0 };
    let now = 7_000_000_000;
    let shot = shoot(&mut gun, &pose(0, 0, 0), now, COOLDOWN).unwrap();
    assert!(!shot.despawn.expired(now));
    assert!(!shot.despawn.expired(now + 2_000_000_000));
    assert!(shot.despawn.expired(now + 2_000_000_001));
}

#[test]
fn gun_on_add_starts_the_cooldown_at_the_time_of_joining() {
    let mut gun = Gun::default();
    gun_on_add(&mut gun, 42_000);
    assert_eq!(gun, Gun { last_fired: 42_000 });
    assert_eq!(shoot(&mut gun, &pose(0, 0, 0), 42_000 + 4_999_999_999, COOLDOWN), None);
    assert!(shoot(&mut gun, &pose(0, 0, 0), 42_000 + 5_000_000_000, COOLDOWN).is_some());
}

#[test]
fn a_sample_selects_the_start_of_the_cooldown() {
    let now = 10_000_000_000;
    assert_eq!(Gun::phased(now, 0), Gun { last_fired: 5_000_000_000 });
    assert_eq!(Gun::phased(now, 1 << 63), Gun { last_fired: 7_500_000_000 });
    assert_eq!(Gun::phased(now, 1 << 62), Gun { last_fired: 6_250_000_000 });
    assert_eq!(Gun::phased(now, u64::MAX), Gun { last_fired: 9_999_999_999 });
    assert_eq!(Gun::phased(now, 3_689_348_814), Gun { last_fired: 5_000_000_000 });
    assert_eq!(Gun::phased(now, 3_689_348_815), Gun { last_fired: 5_000_000_001 });
    assert_eq!(Gun::phased(0, 0), Gun { last_fired: -5_000_000_000 });
}

#[test]
fn a_start_before_the_first_instant_is_held_at_it() {
    assert_eq!(Gun::phased(i64::MIN, 0), Gun { last_fired: i64::MIN });
    assert_eq!(Gun::phased(i64::MIN + 10, 0), Gun { last_fired: i64::MIN });
    assert_eq!(Gun::phased(i64::MIN + 5_000_000_000, 0), Gun { last_fired: i64::MIN });
    assert_eq!(Gun::phased(i64::MIN + 5_000_000_001, 0), Gun { last_fired: i64::MIN + 1 });
    assert_eq!(Gun::phased(i64::MAX, u64::MAX), Gun { last_fired: i64::MAX - 1 });
}

#[test]
fn a_default_gun_is_somewhere_in_the_cooldown_before_time_zero() {
    let mut seen = vec![];
    for _ in 0..64 {
        let gun = Gun::default();
        assert!(gun.last_fired >= -(COOLDOWN as i64));
        assert!(gun.last_fired < 0);
        // it fires within one cooldown of time zero, and not before
        assert!(gun.ready(COOLDOWN as i64, COOLDOWN));
        assert!(!gun.ready(-1, COOLDOWN));
        seen.push(gun.last_fired);
    }
    seen.sort();
    seen.dedup();
    assert!(seen.len() > 1);
}

#[test]
fn a_desynchronized_gun_is_somewhere_in_the_cooldown_before_now() {
    let now = 60_000_000_000;
    let mut seen = vec![];
    for _ in 0..64 {
        let gun = Gun::desynchronized(now);
        assert!(gun.last_fired >= now - COOLDOWN as i64);
        assert!(gun.last_fired < now);
        seen.push(gun.last_fired);
    }
    seen.sort();
    seen.dedup();
    assert!(seen.len() > 1);
    assert_eq!(Gun::desynchronized(i64::MIN), Gun { last_fired: i64::MIN });
}

#[test]
fn a_new_gun_starts_its_cooldown_now() {
    assert_eq!(Gun::new(77), Gun { last_fired: 77 });
    assert!(!Gun::new(77).ready(77 + 4_999_999_999, COOLDOWN));
    assert!(Gun::new(77).ready(77 + 5_000_000_000, COOLDOWN));
}

#[test]
fn a_projectile_probes_half_a_unit_along_its_heading() {
    let shot = Laser {
        pose: Pose {
            position: Position { x: 4, y: 5, z: 6 },
            forward: Direction { x: 600_000_000, y: 0, z: 800_000_000 },
        },
        despawn: DespawnAfter::new(LASER_LIFETIME, 0),
    };
    assert_eq!(
        shot.ray(),
        Ray {
            origin: Position { x: 4, y: 5, z: 6 },
            direction: Direction { x: 600_000_000, y: 0, z: 800_000_000 },
            length: 50_000,
        }
    );
}

#[test]
fn move_lasers_flies_every_projectile_at_thirty_five_units_per_second() {
    let mut lasers = vec![laser(0), laser(-1_000)];
    move_lasers(&mut lasers, 100_000_000);
    assert_eq!(lasers, vec![laser(-350_000), laser(-351_000)]);
    move_lasers(&mut lasers, 0);
    assert_eq!(lasers, vec![laser(-350_000), laser(-351_000)]);
}

#[test]
fn the_weapon_pass_fires_every_ready_gun_once() {
    let mut ships = vec![
        ship(1, Some(Gun { last_fired: 0 })),
        ship(2, None),
        ship(3, Some(Gun { last_fired: 1 })),
        ship(4, Some(Gun { last_fired: -1 })),
    ];
    let now = 5_000_000_000;
    let emitted = volley(&mut ships, now, COOLDOWN);
    let marker = DespawnAfter::new(LASER_LIFETIME, now);
    assert_eq!(
        emitted,
        vec![
            Laser { pose: pose(1, 0, 0), despawn: marker },
            Laser { pose: pose(4, 0, 0), despawn: marker },
        ]
    );
    assert_eq!(
        ships,
        vec![
            ship(1, Some(Gun { last_fired: now })),
            ship(2, None),
            ship(3, Some(Gun { last_fired: 1 })),
            ship(4, Some(Gun { last_fired: now })),
        ]
    );
    assert_eq!(volley(&mut ships, now, COOLDOWN), vec![]);
    assert_eq!(volley(&mut ships, now + 1, COOLDOWN), vec![Laser { pose: pose(3, 0, 0), despawn: DespawnAfter::new(LASER_LIFETIME, now + 1) }]);
}

#[test]
fn a_struck_agent_is_removed_with_the_projectile_that_struck_it() {
    let mut ships = vec![ship(1, None), ship(2, None), ship(3, None)];
    let mut lasers = vec![laser(10), laser(20), laser(30)];
    laser_hit_detect(&mut lasers, &mut ships, &vec![None, Some(EntityId(2)), None]);
    assert_eq!(ships, vec![ship(1, None), ship(3, None)]);
    assert_eq!(lasers, vec![laser(10), laser(30)]);
}

#[test]
fn an_agent_struck_twice_is_removed_once() {
    let mut ships = vec![ship(1, None), ship(2, None)];
    let mut lasers = vec![laser(10), laser(20), laser(30)];
    laser_hit_detect(
        &mut lasers,
        &mut ships,
        &vec![Some(EntityId(2)), Some(EntityId(2)), None],
    );
    assert_eq!(ships, vec![ship(1, None)]);
    assert_eq!(lasers, vec![laser(30)]);
}

#[test]
fn a_hit_on_an_entity_that_is_gone_removes_no_agent() {
    let mut ships = vec![ship(1, None), ship(2, None)];
    let mut lasers = vec![laser(10), laser(20)];
    laser_hit_detect(&mut lasers, &mut ships, &vec![Some(EntityId(77)), None]);
    assert_eq!(ships, vec![ship(1, None), ship(2, None)]);
    assert_eq!(lasers, vec![laser(20)]);
}

#[test]
fn without_hits_nothing_is_removed() {
    let mut ships = vec![ship(1, None), ship(2, None)];
    let mut lasers = vec![laser(10), laser(20)];
    laser_hit_detect(&mut lasers, &mut ships, &vec![None, None]);
    assert_eq!(ships, vec![ship(1, None), ship(2, None)]);
    assert_eq!(lasers, vec![laser(10), laser(20)]);
    laser_hit_detect(&mut lasers, &mut ships, &vec![]);
    assert_eq!(ships, vec![ship(1, None), ship(2, None)]);
    assert_eq!(lasers, vec![laser(10), laser(20)]);
}

#[test]
fn a_report_longer_than_the_projectiles_still_names_its_victims() {
    let mut ships = vec![ship(1, None), ship(2, None)];
    let mut lasers = vec![laser(10)];
    laser_hit_detect(&mut lasers, &mut ships, &vec![None, Some(EntityId(1))]);
    assert_eq!(ships, vec![ship(2, None)]);
    assert_eq!(lasers, vec![laser(10)]);
}
