//! Timed removal: an entity that carries a lifetime marker is removed once
//! the simulation time has passed the marker.

use vstd::prelude::*;
use vstd::seq_lib::group_seq_properties;
use crate::lasers::Laser;
use crate::units::{clamp_i64, later};

verus! {

/// The time after which the entity that carries this marker is removed.
#[derive(Clone, Copy, Debug, PartialEq, Eq, Structural)]
pub struct DespawnAfter {
    despawn_at: i64,
}

impl DespawnAfter {
    /// The last instant at which the entity is still present.
    pub closed spec fn despawn_at(self) -> int {
        self.despawn_at as int
    }

    /// The marker of an entity created at `now` that lives for `duration`.
    pub closed spec fn of(duration: u64, now: i64) -> DespawnAfter {
        DespawnAfter { despawn_at: clamp_i64(now + duration) as i64 }
    }

    /// Whether the entity is to be removed at `now`: the expiry lies strictly
    /// in the past.
    pub open spec fn is_expired(self, now: int) -> bool {
        now > self.despawn_at()
    }

    /// The marker of an entity created at `now` that is to live for
    /// `duration` nanoseconds. An expiry beyond the last representable instant
    /// is held at that instant, which no time ever passes.
    pub fn new(duration: u64, now: i64) -> (marker: DespawnAfter)
        ensures
            marker == DespawnAfter::of(duration, now),
            marker.despawn_at() == clamp_i64(now + duration),
    {
        DespawnAfter { despawn_at: later(now, duration) }
    }

    /// Whether the entity is to be removed at `now`.
    pub fn expired(&self, now: i64) -> (gone: bool)
        ensures
            gone == self.is_expired(now as int),
    {
        now > self.despawn_at
    }
}

/// The projectiles that are still present after the removal pass at `now`,
/// in their order.
pub open spec fn unexpired(lasers: Seq<Laser>, now: i64) -> Seq<Laser> {
    lasers.filter(|laser: Laser| !laser.despawn.is_expired(now as int))
}

/// The removal pass: every projectile whose expiry lies strictly before `now`
/// is removed; the others stay, in their order. Returns how many were removed.
pub fn despawn_after(lasers: &mut Vec<Laser>, now: i64) -> (removed: usize)
    ensures
        final(lasers)@ == unexpired(old(lasers)@, now),
        removed == old(lasers)@.len() - final(lasers)@.len(),
        forall|i: int|
            0 <= i < final(lasers)@.len() ==> !(#[trigger] final(lasers)@[i]).despawn.is_expired(
                now as int,
            ),
{
    let mut kept: Vec<Laser> = Vec::new();
    let mut k: usize = 0;
    proof {
        reveal(Seq::filter);
        assert(lasers@.take(0) =~= Seq::<Laser>::empty());
    }
    while k < lasers.len()
        invariant
            0 <= k <= lasers@.len(),
            lasers@ == old(lasers)@,
            kept@ == unexpired(lasers@.take(k as int), now),
            kept@.len() <= k,
            forall|i: int|
                0 <= i < kept@.len() ==> !(#[trigger] kept@[i]).despawn.is_expired(now as int),
        decreases lasers.len() - k,
    {
        let laser: Laser = lasers[k];
        proof {
            broadcast use group_seq_properties;

            lasers@.lemma_take_succ_push(k as int);
            lasers@.take(k as int).lemma_filter_push(
                laser,
                |laser: Laser| !laser.despawn.is_expired(now as int),
            );
        }
        if !laser.despawn.expired(now) {
            kept.push(laser);
        }
        k = k + 1;
    }
    proof {
        assert(lasers@.take(k as int) =~= lasers@);
    }
    let removed: usize = lasers.len() - kept.len();
    *lasers = kept;
    removed
}

/// A marker is fixed by its expiry.
pub proof fn lemma_marker_by_expiry(a: DespawnAfter, b: DespawnAfter)
    ensures
        a.despawn_at() == b.despawn_at() <==> a == b,
        i64::MIN <= a.despawn_at() <= i64::MAX,
{
}

/// An entity created at `created` with lifetime `duration` is removed at
/// exactly the instants later than `created + duration`, whether or not that
/// sum can be represented.
pub proof fn lemma_expiry_instant(created: i64, duration: u64, t: i64)
    ensures
        DespawnAfter::of(duration, created).is_expired(t as int) <==> t > created + duration,
        DespawnAfter::of(duration, created).despawn_at() == clamp_i64(created + duration),
{
}

/// An entity created at `created` with lifetime `duration` is present any
/// `eps > 0` before `created + duration` and absent any `eps > 0` after it,
/// at every such instant that the clock can show.
pub proof fn lemma_present_before_absent_after(created: i64, duration: u64, eps: int)
    requires
        eps > 0,
    ensures
        created + duration - eps <= i64::MAX ==> !DespawnAfter::of(duration, created).is_expired(
            created + duration - eps,
        ),
        created + duration + eps <= i64::MAX ==> DespawnAfter::of(duration, created).is_expired(
            created + duration + eps,
        ),
{
}

} // verus!
