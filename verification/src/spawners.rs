//! Spawners: factories that create agents of one team at a fixed pose, no
//! faster than their delay allows and no more than their quota allows.
//!
//! The quota is checked before a spawn with `spawned > max`. A spawner with
//! `max = N` therefore creates `N + 1` agents, and then never another.

use vstd::prelude::*;
use vstd::seq_lib::group_seq_properties;
use crate::geometry::Pose;
use crate::ships::SpawnShip;
use crate::team::Team;

verus! {

/// A factory of agents.
#[derive(Clone, Copy, Debug, PartialEq, Eq, Structural)]
pub struct Spawner {
    /// The quota; `None` for a spawner without one.
    pub max: Option<usize>,
    /// Least time between two spawns, in nanoseconds.
    pub delay: u64,
    /// Team of the agents it creates.
    pub team: Team,
    /// Time of the latest spawn; `None` before the first.
    pub last_spawn: Option<i64>,
    /// Number of agents created so far.
    pub spawned: usize,
    /// Where the agents are created.
    pub pose: Pose,
}

impl Spawner {
    /// Whether the spawner has gone past its quota. It never spawns again.
    pub open spec fn is_exhausted(self) -> bool {
        self.max matches Some(m) && self.spawned > m
    }

    /// The instant from which the delay is measured: the latest spawn, or
    /// time zero before the first.
    pub open spec fn since(self) -> int {
        match self.last_spawn {
            Some(at) => at as int,
            None => 0,
        }
    }

    /// Whether the delay is over at `now`.
    pub open spec fn is_due(self, now: int) -> bool {
        now > self.since() + self.delay
    }

    /// Whether the spawner creates an agent on the tick at `now`.
    pub open spec fn fires(self, now: int) -> bool {
        !self.is_exhausted() && self.is_due(now)
    }

    /// The request that the spawner emits when it fires.
    pub open spec fn request(self) -> SpawnShip {
        SpawnShip { pose: self.pose, team: self.team }
    }

    /// The spawner after the tick at `now`.
    pub open spec fn after(self, now: i64) -> Spawner {
        if self.fires(now as int) {
            Spawner {
                max: self.max,
                delay: self.delay,
                team: self.team,
                last_spawn: Some(now),
                spawned: (self.spawned + 1) as usize,
                pose: self.pose,
            }
        } else {
            self
        }
    }

    /// The spawner after the ticks at `ticks`, in order.
    pub open spec fn run(self, ticks: Seq<i64>) -> Spawner
        decreases ticks.len(),
    {
        if ticks.len() == 0 {
            self
        } else {
            self.run(ticks.drop_last()).after(ticks.last())
        }
    }

    /// Number of agents the spawner creates over the ticks at `ticks`.
    pub open spec fn emitted(self, ticks: Seq<i64>) -> nat
        decreases ticks.len(),
    {
        if ticks.len() == 0 {
            0
        } else {
            let one: nat = if self.run(ticks.drop_last()).fires(ticks.last() as int) {
                1
            } else {
                0
            };
            self.emitted(ticks.drop_last()) + one
        }
    }

    /// A spawner that has not spawned yet.
    pub fn new(pose: Pose, team: Team, delay: u64, max: Option<usize>) -> (spawner: Spawner)
        ensures
            spawner == (Spawner { max, delay, team, last_spawn: None, spawned: 0, pose }),
    {
        Spawner { max, delay, team, last_spawn: None, spawned: 0, pose }
    }

    /// One tick of one spawner. A spawner past its quota does nothing.
    /// Otherwise, where `now` is later than the latest spawn (time zero before
    /// the first) plus the delay, it requests one agent of its team at its
    /// pose, counts it, and notes `now` as the time of its latest spawn.
    pub fn tick(&mut self, now: i64) -> (request: Option<SpawnShip>)
        requires
            old(self).spawned < usize::MAX,
        ensures
            *final(self) == old(self).after(now),
            request is Some <==> old(self).fires(now as int),
            request is Some ==> request == Some(old(self).request()) && final(self).spawned == old(
                self,
            ).spawned + 1 && final(self).last_spawn == Some(now),
            request is None ==> *final(self) == *old(self),
            final(self).spawned >= old(self).spawned,
    {
        if let Some(max) = self.max {
            if self.spawned > max {
                return None;
            }
        }
        let since: i64 = match self.last_spawn {
            Some(at) => at,
            None => 0,
        };
        if now as i128 > since as i128 + self.delay as i128 {
            self.last_spawn = Some(now);
            self.spawned = self.spawned + 1;
            Some(SpawnShip { pose: self.pose, team: self.team })
        } else {
            None
        }
    }
}

/// The requests that a tick at `now` draws from `spawners`, in their order.
pub open spec fn requests_of(spawners: Seq<Spawner>, now: i64) -> Seq<SpawnShip> {
    spawners.filter(|s: Spawner| s.fires(now as int)).map_values(|s: Spawner| s.request())
}

/// One tick of every spawner, in order. The requests are returned for the
/// caller to carry out once the pass is over.
pub fn spawn(spawners: &mut Vec<Spawner>, now: i64) -> (requests: Vec<SpawnShip>)
    requires
        forall|i: int| 0 <= i < old(spawners)@.len() ==> (#[trigger] old(spawners)@[i]).spawned
            < usize::MAX,
    ensures
        final(spawners)@.len() == old(spawners)@.len(),
        forall|i: int|
            0 <= i < old(spawners)@.len() ==> #[trigger] final(spawners)@[i] == old(
                spawners,
            )@[i].after(now),
        requests@ == requests_of(old(spawners)@, now),
{
    let mut requests: Vec<SpawnShip> = Vec::new();
    let mut k: usize = 0;
    proof {
        assert(old(spawners)@.take(0) =~= Seq::<Spawner>::empty());
        reveal(Seq::filter);
        assert(requests@ =~= requests_of(old(spawners)@.take(0), now));
    }
    while k < spawners.len()
        invariant
            spawners@.len() == old(spawners)@.len(),
            0 <= k <= spawners@.len(),
            forall|i: int| 0 <= i < k ==> #[trigger] spawners@[i] == old(spawners)@[i].after(now),
            forall|i: int| k <= i < spawners@.len() ==> #[trigger] spawners@[i] == old(spawners)@[i],
            forall|i: int|
                0 <= i < old(spawners)@.len() ==> (#[trigger] old(spawners)@[i]).spawned
                    < usize::MAX,
            requests@ == requests_of(old(spawners)@.take(k as int), now),
        decreases spawners.len() - k,
    {
        let mut spawner: Spawner = spawners[k];
        let request: Option<SpawnShip> = spawner.tick(now);
        spawners.set(k, spawner);
        proof {
            broadcast use group_seq_properties;

            let before = old(spawners)@.take(k as int);
            let current = old(spawners)@[k as int];
            let fires = |s: Spawner| s.fires(now as int);
            let asks = |s: Spawner| s.request();
            old(spawners)@.lemma_take_succ_push(k as int);
            before.lemma_filter_push(current, fires);
            before.filter(fires).lemma_push_map_commute(asks, current);
        }
        if let Some(r) = request {
            requests.push(r);
        }
        k = k + 1;
    }
    proof {
        assert(old(spawners)@.take(k as int) =~= old(spawners)@);
    }
    requests
}

/// A tick never takes a spawner with quota `n` past `n + 1` spawns.
pub proof fn lemma_quota_kept_by_tick(spawner: Spawner, n: usize, now: i64)
    requires
        spawner.max == Some(n),
        n < usize::MAX,
        spawner.spawned <= n + 1,
    ensures
        spawner.after(now).max == Some(n),
        spawner.spawned <= spawner.after(now).spawned <= n + 1,
        spawner.spawned == n + 1 ==> !spawner.fires(now as int) && spawner.after(now) == spawner,
{
}

/// The count of a spawner never falls, and rises by one for each agent that
/// the spawner creates.
pub proof fn lemma_count_never_falls(spawner: Spawner, ticks: Seq<i64>)
    requires
        spawner.spawned + ticks.len() <= usize::MAX,
    ensures
        spawner.run(ticks).spawned == spawner.spawned + spawner.emitted(ticks),
        spawner.emitted(ticks) <= ticks.len(),
    decreases ticks.len(),
{
    if ticks.len() > 0 {
        lemma_count_never_falls(spawner, ticks.drop_last());
    }
}

/// A spawner past its quota stays as it is, and creates nothing, whatever
/// ticks follow.
pub proof fn lemma_exhausted_is_inert(spawner: Spawner, ticks: Seq<i64>)
    requires
        spawner.is_exhausted(),
    ensures
        spawner.run(ticks) == spawner,
        spawner.emitted(ticks) == 0,
    decreases ticks.len(),
{
    if ticks.len() > 0 {
        lemma_exhausted_is_inert(spawner, ticks.drop_last());
    }
}

/// A spawner with quota `n` that has not spawned yet creates at most `n + 1`
/// agents over any ticks; its count is the number it created; and once the
/// count is `n + 1` it creates none on any later tick.
pub proof fn lemma_spawner_quota(spawner: Spawner, n: usize, ticks: Seq<i64>, later: Seq<i64>)
    requires
        spawner.max == Some(n),
        n < usize::MAX,
        spawner.spawned == 0,
    ensures
        spawner.run(ticks).max == Some(n),
        spawner.run(ticks).spawned == spawner.emitted(ticks),
        spawner.emitted(ticks) <= n + 1,
        spawner.emitted(ticks) == n + 1 ==> spawner.run(ticks).run(later) == spawner.run(ticks)
            && spawner.run(ticks).emitted(later) == 0,
    decreases ticks.len(),
{
    if ticks.len() > 0 {
        lemma_spawner_quota(spawner, n, ticks.drop_last(), later);
        lemma_quota_kept_by_tick(spawner.run(ticks.drop_last()), n, ticks.last());
    }
    if spawner.emitted(ticks) == n + 1 {
        lemma_exhausted_is_inert(spawner.run(ticks), later);
    }
}

} // verus!
