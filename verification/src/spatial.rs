//! The spatial index: a snapshot of where the agents it follows were when it
//! was last rebuilt, queried for the nearest neighbour of a point.
//!
//! The snapshot is a cache. It is rebuilt on a schedule of its own, so a query
//! may see positions that are up to one rebuild interval old.
//!
//! The snapshot is kept in a k-d tree. Building the tree and searching it for
//! the entries within a radius are the tree's own work; which of the entries
//! found is the answer to a query is decided here.

use vstd::prelude::*;
use vstd::multiset::Multiset;
use crate::geometry::Position;

verus! {

/// The identity of an entity of the simulation.
#[derive(Clone, Copy, Debug, PartialEq, Eq, Hash, Structural)]
pub struct EntityId(pub u64);

/// One entry of the index: an agent and where it was seen.
#[derive(Clone, Copy, Debug, PartialEq, Eq, Structural)]
pub struct Sighting {
    pub id: EntityId,
    pub position: Position,
}

/// The interval between two rebuilds unless another is chosen: 0.2 s.
pub const REBUILD_INTERVAL: u64 = 200_000_000;

/// The radius of the first search of a nearest-neighbour query.
pub const FIRST_RADIUS: u64 = 0x4_0000;

/// The largest radius that is ever searched. No two points of the arena are
/// this far apart.
pub const SEARCH_LIMIT: u64 = 0x4_0000_0000;

/// `kd_tree::KdTree3` over points of three `i128` coordinates, each with the
/// id of its agent. The tree is opaque here: nothing is known of it but what
/// [`tree_contents`] says it holds.
#[verifier::external_body]
pub struct KdIndex {
    tree: kd_tree::KdTree3<([i128; 3], u64)>,
}

/// The sightings that a tree holds, each as often as it was handed in. The
/// order in which the tree keeps them is its own.
pub uninterp spec fn tree_contents(tree: KdIndex) -> Multiset<Sighting>;

/// `kd_tree::KdTree::build`: the tree that holds the given points. The tree
/// orders the points as it sees fit; it holds each of them, as often as it
/// was given, and nothing else.
#[verifier::external_body]
fn build_tree(entries: Vec<Sighting>) -> (tree: KdIndex)
    ensures
        tree_contents(tree) == entries@.to_multiset(),
{
    let points: Vec<([i128; 3], u64)> = entries
        .iter()
        .map(|e| ([e.position.x as i128, e.position.y as i128, e.position.z as i128], e.id.0))
        .collect();
    KdIndex { tree: kd_tree::KdTree::build(points) }
}

/// `kd_tree::KdSliceN::within_radius`: the points of the tree whose squared
/// distance to the centre is less than the squared radius, each as often as
/// the tree holds it, in no stated order. The radius is bounded so that its
/// square can be computed.
#[verifier::external_body]
fn tree_within(tree: &KdIndex, point: &Position, radius: u64) -> (found: Vec<Sighting>)
    requires
        radius <= SEARCH_LIMIT,
    ensures
        found@.to_multiset() == tree_contents(*tree).filter(
            |e: Sighting| point.distance_squared_to(e.position) < radius * radius,
        ),
{
    let centre: [i128; 3] = [point.x as i128, point.y as i128, point.z as i128];
    tree.tree
        .within_radius(&centre, radius as i128)
        .into_iter()
        .map(|p| Sighting {
            id: EntityId(p.1),
            position: Position { x: p.0[0] as i32, y: p.0[1] as i32, z: p.0[2] as i32 },
        })
        .collect()
}

/// A rebuildable nearest-neighbour structure over the positions of agents.
pub struct SpatialIndex {
    tree: KdIndex,
    count: usize,
    interval: u64,
    rebuilt_at: Option<i64>,
}

/// Whether an entry may be returned by a query that excludes `exclude`.
pub open spec fn is_eligible(entry: Sighting, exclude: Option<EntityId>) -> bool {
    exclude != Some(entry.id)
}

/// Whether any entry may be returned by a query that excludes `exclude`.
pub open spec fn has_neighbour(entries: Multiset<Sighting>, exclude: Option<EntityId>) -> bool {
    exists|t: Sighting| #[trigger] entries.count(t) > 0 && is_eligible(t, exclude)
}

/// The order in which equally distant entries are preferred: by identity,
/// then by coordinates.
pub open spec fn ranks_before(a: Sighting, b: Sighting) -> bool {
    a.id.0 < b.id.0 || (a.id.0 == b.id.0 && (a.position.x < b.position.x || (a.position.x
        == b.position.x && (a.position.y < b.position.y || (a.position.y == b.position.y
        && a.position.z <= b.position.z)))))
}

/// Whether `a` is as good an answer as `b` to a query at `point`: it is
/// closer, or as close and not ranked after `b`.
pub open spec fn nearer(point: Position, a: Sighting, b: Sighting) -> bool {
    let da = point.distance_squared_to(a.position);
    let db = point.distance_squared_to(b.position);
    da < db || (da == db && ranks_before(a, b))
}

/// Whether `s` is the answer to a nearest-neighbour query at `point` that
/// excludes `exclude`: it is an entry, it is not excluded, and it is as good
/// an answer as every other such entry.
pub open spec fn is_nearest_sighting(
    entries: Multiset<Sighting>,
    point: Position,
    exclude: Option<EntityId>,
    s: Sighting,
) -> bool {
    &&& entries.count(s) > 0
    &&& is_eligible(s, exclude)
    &&& forall|t: Sighting| #[trigger]
        entries.count(t) > 0 && is_eligible(t, exclude) ==> nearer(point, s, t)
}

/// The answer to a nearest-neighbour query over `entries`.
pub open spec fn nearest_sighting(
    entries: Multiset<Sighting>,
    point: Position,
    exclude: Option<EntityId>,
) -> Option<Sighting> {
    if exists|s: Sighting| is_nearest_sighting(entries, point, exclude, s) {
        Some(choose|s: Sighting| is_nearest_sighting(entries, point, exclude, s))
    } else {
        None
    }
}

/// At most one sighting is the answer to a query.
pub proof fn lemma_nearest_sighting_unique(
    entries: Multiset<Sighting>,
    point: Position,
    exclude: Option<EntityId>,
    a: Sighting,
    b: Sighting,
)
    requires
        is_nearest_sighting(entries, point, exclude, a),
        is_nearest_sighting(entries, point, exclude, b),
    ensures
        a == b,
        nearest_sighting(entries, point, exclude) == Some(a),
{
    assert(nearer(point, a, b));
    assert(nearer(point, b, a));
    let c = choose|s: Sighting| is_nearest_sighting(entries, point, exclude, s);
    assert(nearer(point, a, c));
    assert(nearer(point, c, a));
}

/// No two points of the arena are `SEARCH_LIMIT` apart.
pub proof fn lemma_within_search_limit(a: Position, b: Position)
    ensures
        a.distance_squared_to(b) < SEARCH_LIMIT * SEARCH_LIMIT,
{
    let dx = a.x - b.x;
    let dy = a.y - b.y;
    let dz = a.z - b.z;
    assert(dx * dx <= 0xffff_ffff * 0xffff_ffff) by (nonlinear_arith)
        requires
            -0xffff_ffff <= dx <= 0xffff_ffff,
    ;
    assert(dy * dy <= 0xffff_ffff * 0xffff_ffff) by (nonlinear_arith)
        requires
            -0xffff_ffff <= dy <= 0xffff_ffff,
    ;
    assert(dz * dz <= 0xffff_ffff * 0xffff_ffff) by (nonlinear_arith)
        requires
            -0xffff_ffff <= dz <= 0xffff_ffff,
    ;
}

/// Whether `a` is preferred to `b` among equally distant entries.
fn ranked_before(a: &Sighting, b: &Sighting) -> (first: bool)
    ensures
        first == ranks_before(*a, *b),
{
    if a.id.0 != b.id.0 {
        a.id.0 < b.id.0
    } else if a.position.x != b.position.x {
        a.position.x < b.position.x
    } else if a.position.y != b.position.y {
        a.position.y < b.position.y
    } else {
        a.position.z <= b.position.z
    }
}

/// The best answer among `found` to a query at `point` that excludes
/// `exclude`.
fn best_among(found: &Vec<Sighting>, point: &Position, exclude: Option<EntityId>) -> (best:
    Option<Sighting>)
    ensures
        best is None ==> forall|i: int|
            0 <= i < found@.len() ==> !is_eligible(#[trigger] found@[i], exclude),
        best matches Some(b) ==> {
            &&& found@.contains(b)
            &&& is_eligible(b, exclude)
            &&& forall|i: int|
                0 <= i < found@.len() && is_eligible(#[trigger] found@[i], exclude) ==> nearer(
                    *point,
                    b,
                    found@[i],
                )
        },
{
    let mut best: Option<(Sighting, u128)> = None;
    let mut k: usize = 0;
    while k < found.len()
        invariant
            0 <= k <= found@.len(),
            best is None ==> forall|i: int|
                0 <= i < k ==> !is_eligible(#[trigger] found@[i], exclude),
            best matches Some(b) ==> {
                &&& found@.contains(b.0)
                &&& is_eligible(b.0, exclude)
                &&& b.1 == point.distance_squared_to(b.0.position)
                &&& forall|i: int|
                    0 <= i < k && is_eligible(#[trigger] found@[i], exclude) ==> nearer(
                        *point,
                        b.0,
                        found@[i],
                    )
            },
        decreases found.len() - k,
    {
        let candidate: Sighting = found[k];
        let excluded: bool = match exclude {
            Some(id) => id == candidate.id,
            None => false,
        };
        if !excluded {
            let d: u128 = point.distance_squared(&candidate.position);
            let better: bool = match best {
                None => true,
                Some(b) => d < b.1 || (d == b.1 && ranked_before(&candidate, &b.0)),
            };
            if better {
                best = Some((candidate, d));
            }
        }
        k = k + 1;
    }
    match best {
        Some(b) => Some(b.0),
        None => None,
    }
}

impl View for SpatialIndex {
    type V = Multiset<Sighting>;

    /// The entries of the snapshot, each as often as it was handed in.
    closed spec fn view(&self) -> Multiset<Sighting> {
        tree_contents(self.tree)
    }
}

impl SpatialIndex {
    #[verifier::type_invariant]
    spec fn counted(self) -> bool {
        self.count == tree_contents(self.tree).len()
    }

    /// The span between two rebuilds.
    pub closed spec fn interval(&self) -> u64 {
        self.interval
    }

    /// When the snapshot was taken, if it ever was.
    pub closed spec fn rebuilt_at(&self) -> Option<i64> {
        self.rebuilt_at
    }

    /// How old the snapshot is at `now`; `None` before the first rebuild.
    pub open spec fn staleness(&self, now: int) -> Option<int> {
        match self.rebuilt_at() {
            Some(at) => Some(now - at),
            None => None,
        }
    }

    /// Whether the schedule asks for a rebuild at `now`: the snapshot was
    /// never taken, or it is at least one interval old.
    pub open spec fn is_due(&self, now: int) -> bool {
        match self.staleness(now) {
            Some(age) => age >= self.interval(),
            None => true,
        }
    }

    /// An empty index that is to be rebuilt every `interval` nanoseconds.
    pub fn new(interval: u64) -> (index: SpatialIndex)
        ensures
            index@ == Multiset::<Sighting>::empty(),
            index.interval() == interval,
            index.rebuilt_at() is None,
    {
        let none: Vec<Sighting> = Vec::new();
        proof {
            none@.to_multiset_ensures();
            assert(none@.to_multiset() =~= Multiset::<Sighting>::empty());
        }
        SpatialIndex { tree: build_tree(none), count: 0, interval, rebuilt_at: None }
    }

    /// Number of entries in the snapshot.
    pub fn len(&self) -> (n: usize)
        ensures
            n == self@.len(),
    {
        proof {
            use_type_invariant(self);
        }
        self.count
    }

    /// Replaces the snapshot by `positions`, taken at `now`.
    pub fn rebuild(&mut self, positions: Vec<Sighting>, now: i64)
        ensures
            final(self)@ == positions@.to_multiset(),
            final(self).interval() == old(self).interval(),
            final(self).rebuilt_at() == Some(now),
            final(self).staleness(now as int) == Some(0int),
    {
        let count: usize = positions.len();
        proof {
            positions@.to_multiset_ensures();
        }
        let interval: u64 = self.interval;
        *self = SpatialIndex { tree: build_tree(positions), count, interval, rebuilt_at: Some(now) };
    }

    /// Whether the schedule asks for a rebuild at `now`. Where it does not,
    /// the snapshot is less than one interval old.
    pub fn rebuild_due(&self, now: i64) -> (due: bool)
        ensures
            due == self.is_due(now as int),
            !due ==> self.staleness(now as int) is Some && self.staleness(now as int)->Some_0
                < self.interval(),
    {
        match self.rebuilt_at {
            None => true,
            Some(at) => now as i128 - at as i128 >= self.interval as i128,
        }
    }

    /// The answer to a nearest-neighbour query at `point` that excludes
    /// `exclude`, where that answer is closer than `radius`; `None` where no
    /// entry that is not excluded is closer than `radius`.
    pub fn nearest_within(&self, point: &Position, exclude: Option<EntityId>, radius: u64) -> (r:
        Option<Sighting>)
        ensures
            r matches Some(s) ==> is_nearest_sighting(self@, *point, exclude, s)
                && point.distance_squared_to(s.position) < radius * radius,
            r is Some ==> r == nearest_sighting(self@, *point, exclude),
            r is None ==> forall|t: Sighting| #[trigger]
                self@.count(t) > 0 && is_eligible(t, exclude) ==> point.distance_squared_to(
                    t.position,
                ) >= radius * radius,
    {
        let reach: u64 = if radius <= SEARCH_LIMIT {
            radius
        } else {
            SEARCH_LIMIT
        };
        let found: Vec<Sighting> = tree_within(&self.tree, point, reach);
        let best: Option<Sighting> = best_among(&found, point, exclude);
        proof {
            let close = |e: Sighting| point.distance_squared_to(e.position) < reach * reach;
            assert forall|t: Sighting|
                close(t) == (point.distance_squared_to(t.position) < radius * radius) by {
                lemma_within_search_limit(*point, t.position);
                if radius > SEARCH_LIMIT {
                    assert(radius * radius >= SEARCH_LIMIT * SEARCH_LIMIT) by (nonlinear_arith)
                        requires
                            radius > SEARCH_LIMIT,
                    ;
                }
            }
            found@.to_multiset_ensures();
            assert forall|t: Sighting| #[trigger]
                self@.count(t) > 0 && is_eligible(t, exclude) && close(t) implies found@.contains(
                t,
            ) by {
                vstd::multiset::axiom_filter_count(self@, close, t);
            }
            assert forall|i: int| 0 <= i < found@.len() implies self@.count(#[trigger] found@[i])
                > 0 && close(found@[i]) by {
                assert(found@.contains(found@[i]));
                vstd::multiset::axiom_filter_count(self@, close, found@[i]);
            }
            if best is Some {
                let b = best->Some_0;
                assert forall|t: Sighting| #[trigger]
                    self@.count(t) > 0 && is_eligible(t, exclude) implies nearer(*point, b, t) by {
                    if close(t) {
                        assert(found@.contains(t));
                    }
                }
                lemma_nearest_sighting_unique(self@, *point, exclude, b, b);
            }
        }
        best
    }

    /// The entry closest to `point` among those whose id is not `exclude`;
    /// `None` where the index holds no such entry. Of several entries that are
    /// equally close, the one with the least id is returned, and of several
    /// with that id the one with the least coordinates.
    pub fn nearest(&self, point: &Position, exclude: Option<EntityId>) -> (r: Option<Sighting>)
        ensures
            r == nearest_sighting(self@, *point, exclude),
            r is Some <==> has_neighbour(self@, exclude),
            r matches Some(s) ==> is_nearest_sighting(self@, *point, exclude, s),
    {
        let mut radius: u64 = FIRST_RADIUS;
        loop
            invariant
                FIRST_RADIUS <= radius <= SEARCH_LIMIT,
            decreases SEARCH_LIMIT - radius,
        {
            let found: Option<Sighting> = self.nearest_within(point, exclude, radius);
            if found.is_some() {
                return found;
            }
            if radius >= SEARCH_LIMIT {
                proof {
                    assert forall|t: Sighting| #[trigger] self@.count(t) > 0 implies !is_eligible(
                        t,
                        exclude,
                    ) by {
                        lemma_within_search_limit(*point, t.position);
                    }
                }
                return None;
            }
            radius = if radius <= SEARCH_LIMIT / 4 {
                radius * 4
            } else {
                SEARCH_LIMIT
            };
        }
    }
}

} // verus!
