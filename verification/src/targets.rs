//! The target registry: the objectives of each team, and which one an agent
//! pursues.

use vstd::prelude::*;
use crate::geometry::Position;
use crate::team::Team;

verus! {

/// An objective: a point that the agents of one team steer toward.
#[derive(Clone, Copy, Debug, PartialEq, Eq, Structural)]
pub struct TeamTarget {
    pub team: Team,
    pub position: Position,
}

/// Whether `team` has an objective at all.
pub open spec fn has_objective(targets: Seq<TeamTarget>, team: Team) -> bool {
    exists|j: int| 0 <= j < targets.len() && (#[trigger] targets[j]).team == team
}

/// Whether `targets[i]` is the objective that an agent of `team` at `from`
/// pursues: it belongs to the team, none of the team's objectives is closer,
/// and of those equally close it comes first in the registry.
pub open spec fn is_nearest_objective(
    targets: Seq<TeamTarget>,
    team: Team,
    from: Position,
    i: int,
) -> bool {
    &&& 0 <= i < targets.len()
    &&& targets[i].team == team
    &&& forall|j: int|
        0 <= j < targets.len() && (#[trigger] targets[j]).team == team
            ==> from.distance_squared_to(targets[i].position) <= from.distance_squared_to(
            targets[j].position,
        )
    &&& forall|j: int|
        0 <= j < i && (#[trigger] targets[j]).team == team ==> from.distance_squared_to(
            targets[i].position,
        ) < from.distance_squared_to(targets[j].position)
}

/// The position of the objective that an agent of `team` at `from` pursues,
/// if its team has one.
pub open spec fn nearest_objective_of(targets: Seq<TeamTarget>, team: Team, from: Position)
    -> Option<Position> {
    if has_objective(targets, team) {
        Some(targets[choose|i: int| is_nearest_objective(targets, team, from, i)].position)
    } else {
        None
    }
}

/// At most one objective is the nearest.
pub proof fn lemma_nearest_objective_unique(
    targets: Seq<TeamTarget>,
    team: Team,
    from: Position,
    i: int,
    j: int,
)
    requires
        is_nearest_objective(targets, team, from, i),
        is_nearest_objective(targets, team, from, j),
    ensures
        i == j,
{
    if i < j {
        assert(targets[i].team == team);
    } else if j < i {
        assert(targets[j].team == team);
    }
}

/// The objective that an agent of `team` at `from` steers toward: the one of
/// its team's objectives with the least squared distance, the first of them
/// where several are equally close; `None` where the team has no objective.
pub fn nearest_objective(targets: &Vec<TeamTarget>, team: Team, from: &Position) -> (r: Option<
    Position,
>)
    ensures
        r == nearest_objective_of(targets@, team, *from),
        r is Some <==> has_objective(targets@, team),
        r matches Some(p) ==> exists|i: int|
            is_nearest_objective(targets@, team, *from, i) && p == targets@[i].position,
{
    let mut best: Option<(usize, u128)> = None;
    let mut k: usize = 0;
    while k < targets.len()
        invariant
            0 <= k <= targets.len(),
            best is None ==> forall|j: int| 0 <= j < k ==> (#[trigger] targets@[j]).team != team,
            best matches Some(b) ==> {
                &&& b.0 < k
                &&& b.1 == from.distance_squared_to(targets@[b.0 as int].position)
                &&& is_nearest_objective(targets@.take(k as int), team, *from, b.0 as int)
            },
        decreases targets.len() - k,
    {
        let candidate: TeamTarget = targets[k];
        if candidate.team == team {
            let d: u128 = from.distance_squared(&candidate.position);
            let closer: bool = match best {
                None => true,
                Some(b) => d < b.1,
            };
            if closer {
                best = Some((k, d));
            }
        }
        proof {
            let before = targets@.take(k as int);
            let after = targets@.take(k + 1);
            assert forall|j: int| 0 <= j < k implies before[j] == after[j] by {}
            assert(after[k as int] == targets@[k as int]);
            if best is Some {
                assert(is_nearest_objective(after, team, *from, best->Some_0.0 as int));
            }
        }
        k = k + 1;
    }
    proof {
        assert(targets@.take(k as int) =~= targets@);
    }
    match best {
        None => {
            proof {
                assert(!has_objective(targets@, team));
            }
            None
        },
        Some(b) => {
            proof {
                let i = b.0 as int;
                assert(targets@[i].team == team);
                assert(has_objective(targets@, team));
                let c = choose|c: int| is_nearest_objective(targets@, team, *from, c);
                lemma_nearest_objective_unique(targets@, team, *from, i, c);
            }
            Some(targets[b.0].position)
        },
    }
}

} // verus!
