//! Decision kernel of a tick-based team combat simulation.
//!
//! Agents of four teams fly through a three-dimensional arena. On every tick
//! each agent moves ahead, turns toward the nearest objective of its team and
//! away from a neighbour that is too close, and fires its gun when the
//! cooldown allows. Projectiles fly straight, remove what they strike, and
//! expire. Spawners add agents up to their quota.
//!
//! The crate decides; it does not draw, and it does not turn quaternions.
//! Every quantity it works on is an integer: time in nanoseconds, lengths in
//! hundred-thousandths of a world unit, angles in billionths of a degree
//! (see [`units`]). Two things are left to the caller, who holds the
//! orientations and the colliders: a steering step returns the turn that it
//! asks for as a [`ships::Steer`], and the caller makes the turn and writes the
//! new heading back; a projectile returns the ray that it probes as a
//! [`lasers::Ray`], and the caller reports what that ray struck.
//!
//! One tick runs the passes in this order:
//!
//! 1. [`spatial::SpatialIndex::rebuild`], where [`spatial::SpatialIndex::rebuild_due`] asks for it
//! 2. [`ships::move_ships`], [`ships::rotate_towards_target`], then
//!    [`ships::rotate_away_from_obstacles`] on the headings that the first turn left
//! 3. [`lasers::volley`]
//! 4. [`lasers::move_lasers`] and [`lasers::laser_hit_detect`]
//! 5. [`spawners::spawn`] and [`ships::SpawnShip::apply`]
//! 6. [`lifetimes::despawn_after`]
//!
//! A pass never adds to or removes from the collection that it walks: what it
//! creates is returned, and added by the caller when the pass is over.

pub mod boids;
pub mod geometry;
pub mod lasers;
pub mod lifetimes;
pub mod ships;
pub mod spatial;
pub mod spawners;
pub mod targets;
pub mod team;
pub mod units;
