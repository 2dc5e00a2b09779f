//! Agents and how they steer.
//!
//! On every tick an agent flies straight ahead, then turns toward the nearest
//! objective of its team, then turns away from its nearest neighbour where
//! that one is close. This module decides each of the three: how far the
//! agent moves, and what turn it is asked to make with what budget of angle.
//! The turn itself is made on the agent's orientation by whoever holds it;
//! the heading that results is written back to the agent's pose before the
//! next step reads it, so that the second turn builds on the first.
//!
//! The rates are fixed: `TURN_RATE` toward an objective, `AVOID_RATE` away
//! from a neighbour.

use vstd::prelude::*;
use crate::geometry::{nearly_parallel, parallel, Direction, Offset, Pose, Position};
use crate::lasers::Gun;
use crate::spatial::{is_nearest_sighting, nearest_sighting, EntityId, Sighting, SpatialIndex};
use crate::targets::{has_objective, nearest_objective, nearest_objective_of, TeamTarget};
use crate::team::Team;
use crate::units::{angle_budget, turn_budget};

verus! {

/// Speed of an agent, in world units per second.
pub const SHIP_SPEED: u32 = 15;

/// Rate at which an agent turns toward its objective, in degrees per second.
pub const TURN_RATE: u32 = 40;

/// Rate at which an agent turns away from a neighbour, in degrees per second.
pub const AVOID_RATE: u32 = 100;

/// A neighbour at this distance or closer is not avoided: 0.1 world units.
pub const AVOID_NEAR: u64 = 10_000;

/// A neighbour at this distance or farther is not avoided: 2 world units.
pub const AVOID_FAR: u64 = 200_000;

/// A steerable agent.
#[derive(Clone, Copy, Debug, PartialEq, Eq, Structural)]
pub struct Ship {
    pub id: EntityId,
    pub pose: Pose,
    pub team: Team,
    pub gun: Option<Gun>,
}

/// The request to create an agent of a team at a pose.
#[derive(Clone, Copy, Debug, PartialEq, Eq, Structural)]
pub struct SpawnShip {
    pub pose: Pose,
    pub team: Team,
}

/// What a steering step asks of an agent's orientation.
#[derive(Clone, Copy, Debug, PartialEq, Eq, Structural)]
pub enum Steer {
    /// Leave the orientation as it is.
    Hold,
    /// Turn toward the orientation that looks from the agent at `target`,
    /// with the world's Y axis up, by at most `max_angle` nanodegrees.
    LookAt { target: Position, max_angle: u128 },
    /// Turn the heading toward `direction`, about the axis that is
    /// perpendicular to both, by at most `max_angle` nanodegrees.
    Veer { direction: Offset, max_angle: u128 },
}

/// Whether a neighbour at squared distance `d2` is avoided: its distance lies
/// strictly between `AVOID_NEAR` and `AVOID_FAR`.
pub open spec fn in_avoid_band(d2: int) -> bool {
    AVOID_NEAR * AVOID_NEAR < d2 < AVOID_FAR * AVOID_FAR
}

/// The turn that the seek step asks of an agent of `team` at `position`.
pub open spec fn seek_of(targets: Seq<TeamTarget>, team: Team, position: Position, dt: u64)
    -> Steer {
    match nearest_objective_of(targets, team, position) {
        Some(target) => Steer::LookAt {
            target,
            max_angle: angle_budget(TURN_RATE as int, dt as int) as u128,
        },
        None => Steer::Hold,
    }
}

/// The turn of a heading toward `direction` with a budget of `max_angle`:
/// none where the two are parallel, since no axis can then be had.
pub open spec fn veer_of(forward: Direction, direction: Offset, max_angle: u128) -> Steer {
    if nearly_parallel(forward, direction) {
        Steer::Hold
    } else {
        Steer::Veer { direction, max_angle }
    }
}

/// The turn that the avoid step asks of an agent at `pose` whose nearest
/// neighbour is `neighbour`.
pub open spec fn avoid_of(neighbour: Option<Sighting>, pose: Pose, dt: u64) -> Steer {
    match neighbour {
        Some(other) => if in_avoid_band(pose.position.distance_squared_to(other.position)) {
            veer_of(
                pose.forward,
                pose.position.minus(other.position),
                angle_budget(AVOID_RATE as int, dt as int) as u128,
            )
        } else {
            Steer::Hold
        },
        None => Steer::Hold,
    }
}

impl Ship {
    /// The agent after `dt` nanoseconds of straight flight.
    pub open spec fn flown(self, dt: u64) -> Ship {
        Ship {
            id: self.id,
            pose: Pose {
                position: self.pose.position.moved(self.pose.forward, SHIP_SPEED as int, dt as int),
                forward: self.pose.forward,
            },
            team: self.team,
            gun: self.gun,
        }
    }
}

/// An offset between two points closer than `AVOID_FAR` has no component
/// beyond the reach of the parallel test.
pub proof fn lemma_band_within_reach(a: Position, b: Position)
    requires
        a.distance_squared_to(b) < AVOID_FAR * AVOID_FAR,
    ensures
        a.minus(b).within_reach(),
{
    let dx = a.x - b.x;
    let dy = a.y - b.y;
    let dz = a.z - b.z;
    assert(dx * dx >= 0 && dy * dy >= 0 && dz * dz >= 0) by (nonlinear_arith);
    assert(dx >= 200_000 || dx <= -200_000 ==> dx * dx >= 200_000 * 200_000) by (nonlinear_arith);
    assert(dy >= 200_000 || dy <= -200_000 ==> dy * dy >= 200_000 * 200_000) by (nonlinear_arith);
    assert(dz >= 200_000 || dz <= -200_000 ==> dz * dz >= 200_000 * 200_000) by (nonlinear_arith);
}

/// Moves every agent forward by `SHIP_SPEED * dt`. Nothing else of an agent
/// changes.
pub fn move_ships(ships: &mut Vec<Ship>, dt: u64)
    ensures
        final(ships)@.len() == old(ships)@.len(),
        forall|i: int|
            0 <= i < old(ships)@.len() ==> #[trigger] final(ships)@[i] == old(ships)@[i].flown(dt),
{
    let mut k: usize = 0;
    while k < ships.len()
        invariant
            ships@.len() == old(ships)@.len(),
            0 <= k <= ships@.len(),
            forall|i: int| 0 <= i < k ==> #[trigger] ships@[i] == old(ships)@[i].flown(dt),
            forall|i: int| k <= i < ships@.len() ==> #[trigger] ships@[i] == old(ships)@[i],
        decreases ships.len() - k,
    {
        let ship: Ship = ships[k];
        let moved: Ship = Ship {
            id: ship.id,
            pose: Pose {
                position: ship.pose.position.translated(&ship.pose.forward, SHIP_SPEED, dt),
                forward: ship.pose.forward,
            },
            team: ship.team,
            gun: ship.gun,
        };
        ships.set(k, moved);
        k = k + 1;
    }
}

/// The seek step of one agent: toward the nearest objective of its team, by
/// at most `TURN_RATE * dt`. An agent whose team has no objective holds its
/// orientation.
pub fn seek(ship: &Ship, targets: &Vec<TeamTarget>, dt: u64) -> (turn: Steer)
    ensures
        turn == seek_of(targets@, ship.team, ship.pose.position, dt),
        !has_objective(targets@, ship.team) ==> turn is Hold,
        has_objective(targets@, ship.team) ==> turn is LookAt,
        turn matches Steer::LookAt { target, max_angle } ==> max_angle == TURN_RATE * dt && Some(
            target,
        ) == nearest_objective_of(targets@, ship.team, ship.pose.position),
{
    match nearest_objective(targets, ship.team, &ship.pose.position) {
        Some(target) => Steer::LookAt { target, max_angle: turn_budget(TURN_RATE, dt) },
        None => Steer::Hold,
    }
}

/// The turn of a heading toward `direction` by at most `max_angle`, or none
/// where the two are parallel.
pub fn rotate_towards(forward: &Direction, direction: &Offset, max_angle: u128) -> (turn: Steer)
    requires
        direction.within_reach(),
    ensures
        turn == veer_of(*forward, *direction, max_angle),
        nearly_parallel(*forward, *direction) <==> turn is Hold,
{
    if parallel(forward, direction) {
        Steer::Hold
    } else {
        Steer::Veer { direction: *direction, max_angle }
    }
}

/// The avoid step of one agent, given its nearest neighbour: where one exists
/// and its distance lies strictly between `AVOID_NEAR` and `AVOID_FAR`, the
/// heading turns toward the direction that leads away from it, by at most
/// `AVOID_RATE * dt`. At `AVOID_NEAR` or closer, at `AVOID_FAR` or farther,
/// without a neighbour, and where heading and direction are parallel, the
/// orientation is held.
pub fn avoid_neighbour(pose: &Pose, neighbour: Option<Sighting>, dt: u64) -> (turn: Steer)
    ensures
        turn == avoid_of(neighbour, *pose, dt),
        neighbour is None ==> turn is Hold,
        neighbour matches Some(other) && !in_avoid_band(
            pose.position.distance_squared_to(other.position),
        ) ==> turn is Hold,
        turn !is LookAt,
        turn matches Steer::Veer { direction, max_angle } ==> max_angle == AVOID_RATE * dt
            && neighbour is Some && direction == pose.position.minus(neighbour->Some_0.position),
{
    match neighbour {
        None => Steer::Hold,
        Some(other) => {
            let d2: u128 = pose.position.distance_squared(&other.position);
            if d2 > (AVOID_NEAR as u128) * (AVOID_NEAR as u128) && d2 < (AVOID_FAR as u128) * (
            AVOID_FAR as u128) {
                proof {
                    lemma_band_within_reach(pose.position, other.position);
                }
                let away: Offset = pose.position.offset_from(&other.position);
                rotate_towards(&pose.forward, &away, turn_budget(AVOID_RATE, dt))
            } else {
                Steer::Hold
            }
        },
    }
}

/// The avoid step of one agent: its nearest neighbour in the index, itself
/// left out, decides as [`avoid_neighbour`] says. Only neighbours closer than
/// `AVOID_FAR` are searched for, since no other is avoided.
pub fn avoid(ship: &Ship, index: &SpatialIndex, dt: u64) -> (turn: Steer)
    ensures
        turn == avoid_of(
            nearest_sighting(index@, ship.pose.position, Some(ship.id)),
            ship.pose,
            dt,
        ),
{
    let neighbour: Option<Sighting> = index.nearest_within(
        &ship.pose.position,
        Some(ship.id),
        AVOID_FAR,
    );
    proof {
        let nearest = nearest_sighting(index@, ship.pose.position, Some(ship.id));
        if neighbour is None && nearest is Some {
            let other = nearest->Some_0;
            assert(is_nearest_sighting(index@, ship.pose.position, Some(ship.id), other));
            assert(index@.count(other) > 0);
            assert(!in_avoid_band(ship.pose.position.distance_squared_to(other.position)));
        }
    }
    avoid_neighbour(&ship.pose, neighbour, dt)
}

/// The seek step of every agent, in order.
pub fn rotate_towards_target(ships: &Vec<Ship>, targets: &Vec<TeamTarget>, dt: u64) -> (turns:
    Vec<Steer>)
    ensures
        turns@.len() == ships@.len(),
        forall|i: int|
            0 <= i < ships@.len() ==> #[trigger] turns@[i] == seek_of(
                targets@,
                ships@[i].team,
                ships@[i].pose.position,
                dt,
            ),
{
    let mut turns: Vec<Steer> = Vec::new();
    let mut k: usize = 0;
    while k < ships.len()
        invariant
            0 <= k <= ships@.len(),
            turns@.len() == k,
            forall|i: int|
                0 <= i < k ==> #[trigger] turns@[i] == seek_of(
                    targets@,
                    ships@[i].team,
                    ships@[i].pose.position,
                    dt,
                ),
        decreases ships.len() - k,
    {
        let turn: Steer = seek(&ships[k], targets, dt);
        turns.push(turn);
        k = k + 1;
    }
    turns
}

/// The avoid step of every agent, in order.
pub fn rotate_away_from_obstacles(ships: &Vec<Ship>, index: &SpatialIndex, dt: u64) -> (turns:
    Vec<Steer>)
    ensures
        turns@.len() == ships@.len(),
        forall|i: int|
            0 <= i < ships@.len() ==> #[trigger] turns@[i] == avoid_of(
                nearest_sighting(index@, ships@[i].pose.position, Some(ships@[i].id)),
                ships@[i].pose,
                dt,
            ),
{
    let mut turns: Vec<Steer> = Vec::new();
    let mut k: usize = 0;
    while k < ships.len()
        invariant
            0 <= k <= ships@.len(),
            turns@.len() == k,
            forall|i: int|
                0 <= i < k ==> #[trigger] turns@[i] == avoid_of(
                    nearest_sighting(index@, ships@[i].pose.position, Some(ships@[i].id)),
                    ships@[i].pose,
                    dt,
                ),
        decreases ships.len() - k,
    {
        let turn: Steer = avoid(&ships[k], index, dt);
        turns.push(turn);
        k = k + 1;
    }
    turns
}

/// Where every agent is, as the spatial index takes it.
pub fn sightings(ships: &Vec<Ship>) -> (seen: Vec<Sighting>)
    ensures
        seen@.len() == ships@.len(),
        forall|i: int|
            0 <= i < ships@.len() ==> #[trigger] seen@[i] == (Sighting {
                id: ships@[i].id,
                position: ships@[i].pose.position,
            }),
{
    let mut seen: Vec<Sighting> = Vec::new();
    let mut k: usize = 0;
    while k < ships.len()
        invariant
            0 <= k <= ships@.len(),
            seen@.len() == k,
            forall|i: int|
                0 <= i < k ==> #[trigger] seen@[i] == (Sighting {
                    id: ships@[i].id,
                    position: ships@[i].pose.position,
                }),
        decreases ships.len() - k,
    {
        seen.push(Sighting { id: ships[k].id, position: ships[k].pose.position });
        k = k + 1;
    }
    seen
}

impl SpawnShip {
    /// The agent that this request creates under the identity `id` at `now`:
    /// it stands at the requested pose, belongs to the requested team, and
    /// carries a gun whose cooldown begins at `now`.
    pub open spec fn ship(self, id: EntityId, now: i64) -> Ship {
        Ship { id, pose: self.pose, team: self.team, gun: Some(Gun { last_fired: now }) }
    }

    /// Adds the requested agent to `ships`.
    pub fn apply(self, ships: &mut Vec<Ship>, id: EntityId, now: i64)
        ensures
            final(ships)@ == old(ships)@.push(self.ship(id, now)),
    {
        ships.push(Ship { id, pose: self.pose, team: self.team, gun: Some(Gun { last_fired: now }) });
    }
}

} // verus!
