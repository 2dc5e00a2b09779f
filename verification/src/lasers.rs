//! Weapons and the projectiles they emit.
//!
//! A gun fires once its cooldown has elapsed and then starts a new cooldown.
//! A projectile flies straight, probes a short ray ahead of itself on every
//! tick, and is removed when that ray strikes something or when its lifetime
//! is over, whichever comes first.

use vstd::prelude::*;
use rand::Rng;
use crate::geometry::{Direction, Pose, Position};
use crate::lifetimes::DespawnAfter;
use crate::ships::Ship;
use crate::spatial::EntityId;
use crate::units::clamp_i64;
use vstd::seq_lib::group_seq_properties;

verus! {

/// Time between two shots of one gun: 5 s.
pub const COOLDOWN: u64 = 5_000_000_000;

/// Time a projectile lives: 2 s.
pub const LASER_LIFETIME: u64 = 2_000_000_000;

/// Speed of a projectile, in world units per second.
pub const LASER_SPEED: u32 = 35;

/// Length of the ray a projectile probes ahead of itself: 0.5 world units.
pub const RAY_LENGTH: u32 = 50_000;

/// Number of values a 64-bit sample can take.
pub const SAMPLE_SPAN: u128 = 0x1_0000_0000_0000_0000;

/// The weapon of an agent.
///
/// `last_fired` is the start of the running cooldown. There are two ways to
/// set it when a gun is made, and the caller chooses one. [`Gun::new`] and
/// [`gun_on_add`] start the cooldown at the current time, so that guns made
/// together fire together, one cooldown later. [`Gun::desynchronized`] starts
/// it at a random instant of the cooldown that ends at the current time,
/// which spreads their first volleys; `Gun::default` does the same for time
/// zero.
#[derive(Clone, Copy, Debug, PartialEq, Eq, Structural)]
pub struct Gun {
    pub last_fired: i64,
}

/// A projectile.
#[derive(Clone, Copy, Debug, PartialEq, Eq, Structural)]
pub struct Laser {
    pub pose: Pose,
    pub despawn: DespawnAfter,
}

/// The ray that a projectile hands to the world query on one tick. The query
/// is to leave the projectile itself out.
#[derive(Clone, Copy, Debug, PartialEq, Eq, Structural)]
pub struct Ray {
    pub origin: Position,
    pub direction: Direction,
    pub length: u32,
}

impl Gun {
    /// Whether the cooldown that began at `last_fired` is over at `now`.
    pub open spec fn is_ready(self, now: int, cooldown: int) -> bool {
        now >= self.last_fired + cooldown
    }

    /// The gun after the tick at `now`.
    pub open spec fn after(self, now: i64, cooldown: u64) -> Gun {
        if self.is_ready(now as int, cooldown as int) {
            Gun { last_fired: now }
        } else {
            self
        }
    }

    /// The start of the cooldown that a 64-bit sample selects for a gun made
    /// at `now`: the sample is scaled onto the span of one cooldown before
    /// `now`.
    pub open spec fn phase(now: int, sample: int) -> int {
        now - COOLDOWN + (sample * COOLDOWN) / (SAMPLE_SPAN as int)
    }

    /// The gun after the ticks at `ticks`, in order.
    pub open spec fn run(self, ticks: Seq<i64>, cooldown: u64) -> Gun
        decreases ticks.len(),
    {
        if ticks.len() == 0 {
            self
        } else {
            self.run(ticks.drop_last(), cooldown).after(ticks.last(), cooldown)
        }
    }

    /// Number of projectiles the gun emits over the ticks at `ticks`.
    pub open spec fn shots(self, ticks: Seq<i64>, cooldown: u64) -> nat
        decreases ticks.len(),
    {
        if ticks.len() == 0 {
            0
        } else {
            let before = self.run(ticks.drop_last(), cooldown);
            let shot: nat = if before.is_ready(ticks.last() as int, cooldown as int) {
                1
            } else {
                0
            };
            self.shots(ticks.drop_last(), cooldown) + shot
        }
    }

    /// A gun whose cooldown begins at `now`.
    pub fn new(now: i64) -> (gun: Gun)
        ensures
            gun == (Gun { last_fired: now }),
    {
        Gun { last_fired: now }
    }

    /// A gun made at `now` whose running cooldown began at a random instant,
    /// at most one cooldown and at least one nanosecond before `now`. An
    /// instant before the first representable one is held at that one.
    pub fn desynchronized(now: i64) -> (gun: Gun)
        ensures
            clamp_i64(now - COOLDOWN) <= gun.last_fired <= clamp_i64(now - 1),
    {
        Gun::phased(now, random_sample())
    }

    /// A gun made at `now` whose running cooldown began at the instant that
    /// `sample` selects, at most one cooldown and at least one nanosecond
    /// before `now`. An instant before the first representable one is held at
    /// that one.
    pub fn phased(now: i64, sample: u64) -> (gun: Gun)
        ensures
            gun.last_fired == clamp_i64(Gun::phase(now as int, sample as int)),
            now - COOLDOWN <= Gun::phase(now as int, sample as int) < now,
    {
        assert(sample * COOLDOWN <= 0xffff_ffff_ffff_ffff * COOLDOWN) by (nonlinear_arith)
            requires
                0 <= sample <= 0xffff_ffff_ffff_ffff,
        ;
        let scaled: u128 = (sample as u128) * (COOLDOWN as u128) / SAMPLE_SPAN;
        let start: i128 = now as i128 - COOLDOWN as i128 + scaled as i128;
        if start < i64::MIN as i128 {
            Gun { last_fired: i64::MIN }
        } else {
            Gun { last_fired: start as i64 }
        }
    }

    /// Whether the gun fires on the tick at `now`.
    pub fn ready(&self, now: i64, cooldown: u64) -> (ready: bool)
        ensures
            ready == self.is_ready(now as int, cooldown as int),
    {
        now as i128 >= self.last_fired as i128 + cooldown as i128
    }
}

impl Default for Gun {
    /// A gun whose running cooldown began at a random instant of the cooldown
    /// before time zero.
    fn default() -> (gun: Gun)
        ensures
            -COOLDOWN <= gun.last_fired < 0,
    {
        Gun::desynchronized(0)
    }
}

/// `rand::Rng::gen` for `u64` on `rand::thread_rng()`: the next 64-bit
/// sample of the thread's generator. Nothing is claimed of its value.
#[verifier::external_body]
fn random_sample() -> (sample: u64) {
    rand::thread_rng().gen::<u64>()
}

/// Starts the cooldown of a gun that joins the simulation at `now`.
pub fn gun_on_add(gun: &mut Gun, now: i64)
    ensures
        final(gun).last_fired == now,
{
    gun.last_fired = now;
}

/// One tick of one weapon. Where the cooldown is over, that is where
/// `now >= last_fired + cooldown`, one projectile leaves from the owner's pose
/// with the lifetime of a projectile, and a new cooldown begins at `now`.
/// Otherwise nothing is emitted and the gun is unchanged.
pub fn shoot(gun: &mut Gun, owner: &Pose, now: i64, cooldown: u64) -> (emitted: Option<Laser>)
    ensures
        *final(gun) == old(gun).after(now, cooldown),
        emitted is Some <==> old(gun).is_ready(now as int, cooldown as int),
        emitted is Some ==> final(gun).last_fired == now,
        emitted is None ==> *final(gun) == *old(gun),
        emitted matches Some(laser) ==> laser == (Laser {
            pose: *owner,
            despawn: DespawnAfter::of(LASER_LIFETIME, now),
        }) && laser.despawn.despawn_at() == clamp_i64(now + LASER_LIFETIME),
{
    if gun.ready(now, cooldown) {
        gun.last_fired = now;
        Some(Laser { pose: *owner, despawn: DespawnAfter::new(LASER_LIFETIME, now) })
    } else {
        None
    }
}

impl Laser {
    /// The projectile after `dt` nanoseconds of flight.
    pub open spec fn flown(self, dt: u64) -> Laser {
        Laser {
            pose: Pose {
                position: self.pose.position.moved(self.pose.forward, LASER_SPEED as int, dt as int),
                forward: self.pose.forward,
            },
            despawn: self.despawn,
        }
    }

    /// The ray that the projectile probes on this tick: from its position,
    /// along its heading, `RAY_LENGTH` long.
    pub fn ray(&self) -> (ray: Ray)
        ensures
            ray == (Ray {
                origin: self.pose.position,
                direction: self.pose.forward,
                length: RAY_LENGTH,
            }),
    {
        Ray { origin: self.pose.position, direction: self.pose.forward, length: RAY_LENGTH }
    }
}

/// Moves every projectile forward by `LASER_SPEED * dt`.
pub fn move_lasers(lasers: &mut Vec<Laser>, dt: u64)
    ensures
        final(lasers)@.len() == old(lasers)@.len(),
        forall|i: int|
            0 <= i < old(lasers)@.len() ==> #[trigger] final(lasers)@[i] == old(lasers)@[i].flown(dt),
{
    let mut k: usize = 0;
    while k < lasers.len()
        invariant
            lasers@.len() == old(lasers)@.len(),
            0 <= k <= lasers@.len(),
            forall|i: int| 0 <= i < k ==> #[trigger] lasers@[i] == old(lasers)@[i].flown(dt),
            forall|i: int| k <= i < lasers@.len() ==> #[trigger] lasers@[i] == old(lasers)@[i],
        decreases lasers.len() - k,
    {
        let laser: Laser = lasers[k];
        let moved: Laser = Laser {
            pose: Pose {
                position: laser.pose.position.translated(&laser.pose.forward, LASER_SPEED, dt),
                forward: laser.pose.forward,
            },
            despawn: laser.despawn,
        };
        lasers.set(k, moved);
        k = k + 1;
    }
}

/// The agent after the weapon pass at `now`: its gun, if it has one, has
/// gone through one tick.
pub open spec fn armed_after(ship: Ship, now: i64, cooldown: u64) -> Ship {
    Ship {
        id: ship.id,
        pose: ship.pose,
        team: ship.team,
        gun: match ship.gun {
            Some(gun) => Some(gun.after(now, cooldown)),
            None => None,
        },
    }
}

/// Whether the agent emits a projectile on the tick at `now`.
pub open spec fn fires(ship: Ship, now: i64, cooldown: u64) -> bool {
    ship.gun matches Some(gun) && gun.is_ready(now as int, cooldown as int)
}

/// The projectiles that the weapon pass at `now` emits, in the order of the
/// agents that fire them.
pub open spec fn volley_of(ships: Seq<Ship>, now: i64, cooldown: u64) -> Seq<Laser> {
    ships.filter(|ship: Ship| fires(ship, now, cooldown)).map_values(
        |ship: Ship| Laser { pose: ship.pose, despawn: DespawnAfter::of(LASER_LIFETIME, now) },
    )
}

/// The weapon pass: one tick of the gun of every agent that has one. The
/// projectiles are returned for the caller to add once the pass is over.
pub fn volley(ships: &mut Vec<Ship>, now: i64, cooldown: u64) -> (emitted: Vec<Laser>)
    ensures
        final(ships)@.len() == old(ships)@.len(),
        forall|i: int|
            0 <= i < old(ships)@.len() ==> #[trigger] final(ships)@[i] == armed_after(
                old(ships)@[i],
                now,
                cooldown,
            ),
        emitted@ == volley_of(old(ships)@, now, cooldown),
{
    let mut emitted: Vec<Laser> = Vec::new();
    let mut k: usize = 0;
    proof {
        reveal(Seq::filter);
        assert(old(ships)@.take(0) =~= Seq::<Ship>::empty());
        assert(emitted@ =~= volley_of(old(ships)@.take(0), now, cooldown));
    }
    while k < ships.len()
        invariant
            ships@.len() == old(ships)@.len(),
            0 <= k <= ships@.len(),
            forall|i: int|
                0 <= i < k ==> #[trigger] ships@[i] == armed_after(old(ships)@[i], now, cooldown),
            forall|i: int| k <= i < ships@.len() ==> #[trigger] ships@[i] == old(ships)@[i],
            emitted@ == volley_of(old(ships)@.take(k as int), now, cooldown),
        decreases ships.len() - k,
    {
        let ship: Ship = ships[k];
        proof {
            broadcast use group_seq_properties;

            let before = old(ships)@.take(k as int);
            let firing = |ship: Ship| fires(ship, now, cooldown);
            let shot = |ship: Ship|
                Laser { pose: ship.pose, despawn: DespawnAfter::of(LASER_LIFETIME, now) };
            old(ships)@.lemma_take_succ_push(k as int);
            before.lemma_filter_push(ship, firing);
            before.filter(firing).lemma_push_map_commute(shot, ship);
        }
        if let Some(held) = ship.gun {
            let mut gun: Gun = held;
            let shot: Option<Laser> = shoot(&mut gun, &ship.pose, now, cooldown);
            ships.set(k, Ship { id: ship.id, pose: ship.pose, team: ship.team, gun: Some(gun) });
            if let Some(laser) = shot {
                emitted.push(laser);
            }
        }
        k = k + 1;
    }
    proof {
        assert(old(ships)@.take(k as int) =~= old(ships)@);
    }
    emitted
}

/// What the ray of projectile `i` struck, as `hits` reports it: an entity, or
/// nothing. Projectiles beyond the end of the report struck nothing.
pub open spec fn struck(hits: Seq<Option<EntityId>>, i: int) -> Option<EntityId> {
    if 0 <= i < hits.len() {
        hits[i]
    } else {
        None
    }
}

/// Whether some ray struck the entity `id`.
pub open spec fn was_hit(hits: Seq<Option<EntityId>>, id: EntityId) -> bool {
    hits.contains(Some(id))
}

/// The projectiles whose ray struck nothing, in their order.
pub open spec fn unspent(lasers: Seq<Laser>, hits: Seq<Option<EntityId>>) -> Seq<Laser>
    decreases lasers.len(),
{
    if lasers.len() == 0 {
        lasers
    } else {
        let rest = unspent(lasers.drop_last(), hits);
        if struck(hits, lasers.len() - 1) is None {
            rest.push(lasers.last())
        } else {
            rest
        }
    }
}

/// The agents that no ray struck, in their order.
pub open spec fn survivors(ships: Seq<Ship>, hits: Seq<Option<EntityId>>) -> Seq<Ship> {
    ships.filter(|ship: Ship| !was_hit(hits, ship.id))
}

/// Whether `hits` names `id`.
fn names(hits: &Vec<Option<EntityId>>, id: EntityId) -> (found: bool)
    ensures
        found == was_hit(hits@, id),
{
    let mut k: usize = 0;
    while k < hits.len()
        invariant
            0 <= k <= hits@.len(),
            forall|j: int| 0 <= j < k ==> hits@[j] != Some(id),
        decreases hits.len() - k,
    {
        let hit: Option<EntityId> = hits[k];
        if let Some(victim) = hit {
            if victim == id {
                assert(hits@[k as int] == Some(id));
                return true;
            }
        }
        k = k + 1;
    }
    false
}

/// Resolves the hits of one tick. `hits[i]` is what the ray of projectile `i`
/// struck. Every agent that some ray struck is removed, once, however many
/// rays struck it; a hit on an entity that is not among the agents removes
/// nothing. Every projectile whose ray struck something is removed with it.
/// The others stay, in their order.
pub fn laser_hit_detect(
    lasers: &mut Vec<Laser>,
    ships: &mut Vec<Ship>,
    hits: &Vec<Option<EntityId>>,
)
    ensures
        final(ships)@ == survivors(old(ships)@, hits@),
        final(lasers)@ == unspent(old(lasers)@, hits@),
        forall|i: int|
            0 <= i < final(ships)@.len() ==> !was_hit(hits@, (#[trigger] final(ships)@[i]).id),
{
    let mut alive: Vec<Ship> = Vec::new();
    let mut k: usize = 0;
    proof {
        reveal(Seq::filter);
        assert(ships@.take(0) =~= Seq::<Ship>::empty());
    }
    while k < ships.len()
        invariant
            0 <= k <= ships@.len(),
            ships@ == old(ships)@,
            alive@ == survivors(ships@.take(k as int), hits@),
            forall|i: int| 0 <= i < alive@.len() ==> !was_hit(hits@, (#[trigger] alive@[i]).id),
        decreases ships.len() - k,
    {
        let ship: Ship = ships[k];
        proof {
            broadcast use group_seq_properties;

            ships@.lemma_take_succ_push(k as int);
            ships@.take(k as int).lemma_filter_push(ship, |ship: Ship| !was_hit(hits@, ship.id));
        }
        if !names(hits, ship.id) {
            alive.push(ship);
        }
        k = k + 1;
    }
    proof {
        assert(ships@.take(k as int) =~= ships@);
    }
    *ships = alive;

    let mut flying: Vec<Laser> = Vec::new();
    let mut k: usize = 0;
    proof {
        assert(lasers@.take(0) =~= Seq::<Laser>::empty());
    }
    while k < lasers.len()
        invariant
            0 <= k <= lasers@.len(),
            lasers@ == old(lasers)@,
            flying@ == unspent(lasers@.take(k as int), hits@),
        decreases lasers.len() - k,
    {
        let clear: bool = if k < hits.len() {
            hits[k].is_none()
        } else {
            true
        };
        proof {
            let next = lasers@.take(k + 1);
            assert(next.drop_last() =~= lasers@.take(k as int));
            assert(next.last() == lasers@[k as int]);
        }
        if clear {
            flying.push(lasers[k]);
        }
        k = k + 1;
    }
    proof {
        assert(lasers@.take(k as int) =~= lasers@);
    }
    *lasers = flying;
}

/// Before its cooldown is over a gun emits nothing and does not change.
pub proof fn lemma_silent_during_cooldown(gun: Gun, ticks: Seq<i64>, cooldown: u64)
    requires
        forall|i: int| 0 <= i < ticks.len() ==> #[trigger] ticks[i] < gun.last_fired + cooldown,
    ensures
        gun.shots(ticks, cooldown) == 0,
        gun.run(ticks, cooldown) == gun,
    decreases ticks.len(),
{
    if ticks.len() > 0 {
        lemma_silent_during_cooldown(gun, ticks.drop_last(), cooldown);
    }
}

/// On the first tick at or after `last_fired + cooldown` a gun emits exactly
/// one projectile, the only one since `last_fired`, and its next cooldown
/// begins at that tick.
pub proof fn lemma_one_shot_when_ready(gun: Gun, early: Seq<i64>, first: i64, cooldown: u64)
    requires
        forall|i: int| 0 <= i < early.len() ==> #[trigger] early[i] < gun.last_fired + cooldown,
        first >= gun.last_fired + cooldown,
    ensures
        gun.shots(early, cooldown) == 0,
        gun.shots(early.push(first), cooldown) == 1,
        gun.run(early.push(first), cooldown).last_fired == first,
{
    lemma_silent_during_cooldown(gun, early, cooldown);
    assert(early.push(first).drop_last() =~= early);
}

/// Two shots of one gun are at least one cooldown apart: after a shot at
/// `fired`, ticks before `fired + cooldown` emit nothing.
pub proof fn lemma_shots_one_cooldown_apart(gun: Gun, fired: i64, later: Seq<i64>, cooldown: u64)
    requires
        gun.is_ready(fired as int, cooldown as int),
        forall|i: int| 0 <= i < later.len() ==> #[trigger] later[i] < fired + cooldown,
    ensures
        gun.after(fired, cooldown).shots(later, cooldown) == 0,
{
    lemma_silent_during_cooldown(gun.after(fired, cooldown), later, cooldown);
}

} // verus!
