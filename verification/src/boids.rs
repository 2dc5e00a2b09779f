//! The plain flock: agents without teams or weapons that fly straight and
//! turn toward the one target of the scene.

use vstd::prelude::*;
use crate::geometry::{Pose, Position};
use crate::ships::{Steer, SHIP_SPEED, TURN_RATE};
use crate::units::{angle_budget, turn_budget};

verus! {

/// A member of the flock.
#[derive(Clone, Copy, Debug, PartialEq, Eq, Structural)]
pub struct Boid {
    pub pose: Pose,
    pub group: BoidGroup,
}

/// The group a member of the flock is drawn with.
#[derive(Clone, Copy, Debug, PartialEq, Eq, Structural)]
pub enum BoidGroup {
    Red,
    Blue,
    Green,
    Yellow,
}

/// The point that the flock steers toward.
#[derive(Clone, Copy, Debug, PartialEq, Eq, Structural)]
pub struct Target {
    pub position: Position,
}

impl Default for BoidGroup {
    /// The first group.
    fn default() -> (group: BoidGroup)
        ensures
            group == BoidGroup::Red,
    {
        BoidGroup::Red
    }
}

impl Boid {
    /// The member after `dt` nanoseconds of straight flight.
    pub open spec fn flown(self, dt: u64) -> Boid {
        Boid {
            pose: Pose {
                position: self.pose.position.moved(self.pose.forward, SHIP_SPEED as int, dt as int),
                forward: self.pose.forward,
            },
            group: self.group,
        }
    }
}

/// The turn asked of every member of the flock: toward the target where the
/// scene holds exactly one, none otherwise.
pub open spec fn flock_turn(targets: Seq<Target>, dt: u64) -> Steer {
    if targets.len() == 1 {
        Steer::LookAt {
            target: targets[0].position,
            max_angle: angle_budget(TURN_RATE as int, dt as int) as u128,
        }
    } else {
        Steer::Hold
    }
}

/// Moves every member of the flock forward by `SHIP_SPEED * dt`.
pub fn move_boids(boids: &mut Vec<Boid>, dt: u64)
    ensures
        final(boids)@.len() == old(boids)@.len(),
        forall|i: int|
            0 <= i < old(boids)@.len() ==> #[trigger] final(boids)@[i] == old(boids)@[i].flown(dt),
{
    let mut k: usize = 0;
    while k < boids.len()
        invariant
            boids@.len() == old(boids)@.len(),
            0 <= k <= boids@.len(),
            forall|i: int| 0 <= i < k ==> #[trigger] boids@[i] == old(boids)@[i].flown(dt),
            forall|i: int| k <= i < boids@.len() ==> #[trigger] boids@[i] == old(boids)@[i],
        decreases boids.len() - k,
    {
        let boid: Boid = boids[k];
        let moved: Boid = Boid {
            pose: Pose {
                position: boid.pose.position.translated(&boid.pose.forward, SHIP_SPEED, dt),
                forward: boid.pose.forward,
            },
            group: boid.group,
        };
        boids.set(k, moved);
        k = k + 1;
    }
}

/// The turn asked of the flock on one tick. Where the scene holds exactly one
/// target, every member turns toward it by at most `TURN_RATE * dt`; where it
/// holds none or several, every member holds its orientation.
pub fn rotate_towards_target(targets: &Vec<Target>, dt: u64) -> (turn: Steer)
    ensures
        turn == flock_turn(targets@, dt),
        targets@.len() != 1 <==> turn is Hold,
        turn matches Steer::LookAt { target, max_angle } ==> target == targets@[0].position
            && max_angle == TURN_RATE * dt,
{
    if targets.len() == 1 {
        Steer::LookAt { target: targets[0].position, max_angle: turn_budget(TURN_RATE, dt) }
    } else {
        Steer::Hold
    }
}

} // verus!
