//! Filters: predicates deciding which archetypes (and, at the finer grain,
//! which groups of entities) a query visits.
//!
//! A filter answers two questions: does an archetype match, and does a group
//! within it match. [`ComponentFilter`] answers the first by column
//! existence; [`Passthrough`] answers the second with an unconditional yes;
//! [`ChangedFilter`] answers it by comparing a column's version against a
//! remembered baseline; [`EntityFilterTuple`] composes an archetype-level
//! predicate with an entity-level one. The [`QueryResult`] a filter produces
//! is built fresh per query invocation and never outlives a change to the
//! archetype list.

use vstd::prelude::*;

use crate::storage::Archetype;
use crate::storage::ComponentTypeId;
use crate::storage::Version;

verus! {

/// Archetype-level predicate: an archetype matches iff it has a column for
/// the component type.
pub struct ComponentFilter {
    /// The component type whose column must exist.
    pub tag: ComponentTypeId,
}

impl ComponentFilter {
    /// The filter selecting archetypes that store component type `tag`.
    pub fn new(tag: ComponentTypeId) -> (r: Self)
        ensures
            r.tag == tag,
    {
        ComponentFilter { tag }
    }

    /// What this filter accepts: archetypes with a column for the tag.
    pub open spec fn spec_matches(&self, arch: Archetype) -> bool {
        arch.tags@.contains(self.tag)
    }

    /// Whether `arch` carries a column for the filtered component type.
    pub fn matches_archetype(&self, arch: &Archetype) -> (r: bool)
        ensures
            r == self.spec_matches(*arch),
    {
        arch.has_component(self.tag)
    }
}

/// Entity-level predicate with no condition: every group matches. Used when
/// a view adds no per-entity refinement of its own.
pub struct Passthrough;

impl Passthrough {
    /// Always accepts.
    pub fn matches_group(&self) -> (r: bool)
        ensures
            r,
    {
        true
    }
}

/// Entity-level refinement for change detection: a group matches only when
/// its column's current version is newer than a remembered baseline, i.e.
/// some mutable fetch may have touched it since the baseline was recorded.
pub struct ChangedFilter {
    /// The version the caller last observed.
    pub since: Version,
}

impl ChangedFilter {
    /// Whether a column now at `current` may have changed since the
    /// baseline. Favors false positives: any mutable fetch counts.
    pub fn matches_version(&self, current: Version) -> (r: bool)
        ensures
            r == (current > self.since),
    {
        current > self.since
    }
}

/// Conjunction of an archetype-level predicate and an entity-level one: the
/// declared filter shape of a query. The default filter of every
/// single-component view pairs that component's existence with
/// [`Passthrough`].
pub struct EntityFilterTuple {
    /// Which archetypes to visit.
    pub arch: ComponentFilter,
    /// Which groups within them to keep.
    pub entity: Passthrough,
}

impl EntityFilterTuple {
    /// Pairs a column-existence filter for `tag` with no entity refinement.
    pub fn new(tag: ComponentTypeId) -> (r: Self)
        ensures
            r.arch.tag == tag,
    {
        EntityFilterTuple { arch: ComponentFilter::new(tag), entity: Passthrough }
    }

    /// What the archetype level of this filter accepts.
    pub open spec fn spec_matches(&self, arch: Archetype) -> bool {
        self.arch.spec_matches(arch)
    }

    /// Whether `arch` is visited by a query with this filter.
    pub fn matches_archetype(&self, arch: &Archetype) -> (r: bool)
        ensures
            r == self.spec_matches(*arch),
    {
        self.arch.matches_archetype(arch)
    }

    /// Resolves the filter against the full archetype list: the indices of
    /// exactly the matching archetypes, in ascending order. An archetype
    /// with zero entities still participates — it will simply yield an
    /// empty fetch.
    pub fn find_archetypes(&self, archetypes: &Vec<Archetype>) -> (r: QueryResult)
        ensures
            r.wf(archetypes@),
            forall|k: int|
                0 <= k < r.indices@.len() ==> self.spec_matches(
                    archetypes@[#[trigger] r.indices@[k] as int],
                ),
            forall|a: int|
                0 <= a < archetypes@.len() && self.spec_matches(archetypes@[a])
                    ==> r.indices@.contains(a as usize),
    {
        let mut indices: Vec<usize> = Vec::new();
        let mut a: usize = 0;
        while a < archetypes.len()
            invariant
                a <= archetypes@.len(),
                forall|k: int|
                    0 <= k < indices@.len() ==> (#[trigger] indices@[k]) < a && self.spec_matches(
                        archetypes@[indices@[k] as int],
                    ),
                forall|k1: int, k2: int|
                    0 <= k1 < k2 < indices@.len() ==> indices@[k1] < indices@[k2],
                forall|b: int|
                    0 <= b < a && self.spec_matches(archetypes@[b]) ==> indices@.contains(
                        b as usize,
                    ),
            decreases archetypes@.len() - a,
        {
            if self.matches_archetype(&archetypes[a]) {
                let ghost before = indices@;
                indices.push(a);
                proof {
                    assert(indices@[indices@.len() - 1] == a);
                    assert forall|b: int|
                        0 <= b < a && self.spec_matches(archetypes@[b]) implies indices@.contains(
                        b as usize,
                    ) by {
                        let j = choose|j: int| 0 <= j < before.len() && before[j] == b as usize;
                        assert(indices@[j] == b as usize);
                    }
                    assert(indices@.contains(a));
                }
            }
            a = a + 1;
        }
        QueryResult { indices }
    }
}

/// The archetypes one query invocation visits, resolved by a filter at the
/// moment iteration begins: matching archetype indices in ascending order.
/// Never reused after the archetype list changes.
pub struct QueryResult {
    /// Indices into the archetype list, strictly increasing.
    pub indices: Vec<usize>,
}

impl QueryResult {
    /// Well-formed against the archetype list it was resolved from: every
    /// index in range, and strictly ascending (so no archetype is visited
    /// twice).
    pub open spec fn wf(&self, archs: Seq<Archetype>) -> bool {
        &&& forall|k: int| 0 <= k < self.indices@.len() ==> (#[trigger] self.indices@[k]) < archs.len()
        &&& forall|k1: int, k2: int|
            0 <= k1 < k2 < self.indices@.len() ==> self.indices@[k1] < self.indices@[k2]
    }

    /// How many archetypes this query visits.
    pub fn len(&self) -> (r: usize)
        ensures
            r == self.indices@.len(),
    {
        self.indices.len()
    }

    /// The `k`-th visited archetype's index.
    pub fn index(&self, k: usize) -> (r: usize)
        requires
            k < self.indices@.len(),
        ensures
            r == self.indices@[k as int],
    {
        self.indices[k]
    }
}

} // verus!
