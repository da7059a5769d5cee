//! The tracked write view: exclusive access to one component type that
//! additionally surfaces the column's version, so consumers can compare it
//! against a remembered baseline and skip unchanged groups.
//!
//! `TrackedWrite` decorates [`Write`] without duplicating any of its
//! access-control logic: every permission question — validation, declared
//! read/write sets, required permissions — is forwarded to the wrapped view
//! unchanged. Only the fetch path is new: each bound column is wrapped in a
//! [`TrackedWriteFetch`], which answers `find`, `find_mut` and `version` by
//! comparing a requested component type against the bound column's type tag
//! (a checked downcast — never a blind reinterpretation), and which
//! supports length-known, splittable indexed iteration.

use vstd::prelude::*;

use crate::filter::EntityFilterTuple;
use crate::filter::QueryResult;
use crate::indexed::IndexedIter;
use crate::permissions::ComponentAccess;
use crate::permissions::Permissions;
use crate::storage::Archetype;
use crate::storage::ComponentSliceMut;
use crate::storage::ComponentTypeId;
use crate::storage::Components;
use crate::storage::Version;
use crate::view::Write;

verus! {

/// Write access to one component type, decorated with version metadata for
/// change detection. Wraps the plain [`Write`] view and forwards every
/// permission-related question to it.
pub struct TrackedWrite(pub Write);

impl TrackedWrite {
    /// The tracked write view of component type `tag`.
    pub fn new(tag: ComponentTypeId) -> (r: Self)
        ensures
            r.0.tag == tag,
    {
        TrackedWrite(Write::new(tag))
    }

    /// The component type this view writes.
    pub open spec fn tag(&self) -> ComponentTypeId {
        self.0.tag
    }

    /// Delegates to [`Write::validate`]: a single write is self-consistent.
    pub fn validate(&self) -> (r: bool)
        ensures
            r,
    {
        self.0.validate()
    }

    /// Delegates to [`Write::validate_access`]: the grant must hold the tag
    /// as a write.
    pub fn validate_access(&self, access: &ComponentAccess) -> (r: bool)
        ensures
            r == access.grant.write_set().contains(self.tag()),
    {
        self.0.validate_access(access)
    }

    /// Delegates to [`Write::reads_types`]: no separate read declarations.
    pub fn reads_types(&self) -> (r: Vec<ComponentTypeId>)
        ensures
            r@ == Seq::<ComponentTypeId>::empty(),
    {
        self.0.reads_types()
    }

    /// Delegates to [`Write::writes_types`]: exactly the wrapped tag.
    pub fn writes_types(&self) -> (r: Vec<ComponentTypeId>)
        ensures
            r@ == seq![self.tag()],
    {
        self.0.writes_types()
    }

    /// Delegates to [`Write::reads`].
    pub fn reads(&self, d: ComponentTypeId) -> (r: bool)
        ensures
            r == (d == self.tag()),
    {
        self.0.reads(d)
    }

    /// Delegates to [`Write::writes`].
    pub fn writes(&self, d: ComponentTypeId) -> (r: bool)
        ensures
            r == (d == self.tag()),
    {
        self.0.writes(d)
    }

    /// Delegates to [`Write::requires_permissions`]: `{writes: {tag}}`.
    pub fn requires_permissions(&self) -> (r: Permissions)
        ensures
            r.read_set() == Set::<ComponentTypeId>::empty(),
            r.write_set() == Set::<ComponentTypeId>::empty().insert(self.tag()),
    {
        self.0.requires_permissions()
    }

    /// Delegates to [`Write::default_filter`].
    pub fn default_filter(&self) -> (r: EntityFilterTuple)
        ensures
            r.arch.tag == self.tag(),
    {
        self.0.default_filter()
    }

    /// Fetches as [`Write::fetch`] does — one exclusive column per visited
    /// archetype, version advanced exactly once, unfetched columns
    /// untouched — and wraps each bound column for tracked consumption.
    pub fn fetch<T>(
        &self,
        components: &mut Components<T>,
        archetypes: &Vec<Archetype>,
        query: &QueryResult,
    ) -> (r: TrackedWriteIter<T>)
        requires
            old(components).wf(archetypes@),
            query.wf(archetypes@),
            forall|k: int|
                0 <= k < query.indices@.len() ==> {
                    let a = #[trigger] query.indices@[k] as int;
                    archetypes@[a].tags@.contains(self.tag()) && old(components).col_present(
                        archetypes@,
                        a,
                        self.tag(),
                    ) ==> old(components).col_version(archetypes@, a, self.tag()) < Version::MAX
                },
        ensures
            final(components).wf(archetypes@),
            r.pos == 0,
            r.fetches@.len() == query.indices@.len(),
            forall|k: int|
                0 <= k < r.fetches@.len() ==> {
                    let a = #[trigger] query.indices@[k] as int;
                    match r.fetches@[k] {
                        Some(f) => {
                            &&& archetypes@[a].tags@.contains(self.tag())
                            &&& old(components).col_present(archetypes@, a, self.tag())
                            &&& f.0.tag == self.tag()
                            &&& f.0.data@ == old(components).col_data(archetypes@, a, self.tag())
                            &&& f.0.data@.len() == archetypes@[a].entities@.len()
                            &&& f.0.version == old(components).col_version(
                                archetypes@,
                                a,
                                self.tag(),
                            ) + 1
                            &&& final(components).col_version(archetypes@, a, self.tag())
                                == f.0.version
                            &&& !final(components).col_present(archetypes@, a, self.tag())
                        },
                        None => !(archetypes@[a].tags@.contains(self.tag()) && old(
                            components,
                        ).col_present(archetypes@, a, self.tag())),
                    }
                },
            forall|a2: int, t2: ComponentTypeId|
                0 <= a2 < archetypes@.len() && archetypes@[a2].tags@.contains(t2) && !(t2
                    == self.tag() && query.indices@.contains(a2 as usize))
                    ==> final(components).col_at(archetypes@, a2, t2) == old(components).col_at(
                    archetypes@,
                    a2,
                    t2,
                ),
    {
        let mut inner = self.0.fetch(components, archetypes, query);
        let ghost inner0 = inner@;
        let n = inner.len();
        let mut fetches: Vec<Option<TrackedWriteFetch<T>>> = Vec::new();
        let mut k: usize = 0;
        while k < n
            invariant
                n == inner0.len(),
                inner@.len() == inner0.len(),
                k <= n,
                fetches@.len() == k,
                forall|j: int| k <= j < n ==> inner@[j] == inner0[j],
                forall|j: int|
                    0 <= j < k ==> match #[trigger] fetches@[j] {
                        Some(f) => inner0[j] is Some && f.0 == inner0[j].unwrap(),
                        None => inner0[j] is None,
                    },
            decreases n - k,
        {
            let item = inner[k].take();
            match item {
                Some(sl) => fetches.push(Some(TrackedWriteFetch(sl))),
                None => fetches.push(None),
            }
            k = k + 1;
        }
        TrackedWriteIter { fetches, pos: 0 }
    }
}

/// The per-archetype sequence a tracked fetch produces: one bound fetch (or
/// `None`, where an archetype lacked the column) per visited archetype, in
/// query order, each consumed once.
pub struct TrackedWriteIter<T> {
    /// One entry per visited archetype, in the query's archetype order.
    pub fetches: Vec<Option<TrackedWriteFetch<T>>>,
    /// How many entries have been handed out.
    pub pos: usize,
}

impl<T> TrackedWriteIter<T> {
    /// Hands out the next archetype's fetch: `Some(entry)` while entries
    /// remain (the entry itself is `None` for an archetype that carried no
    /// column), `None` when the sequence is exhausted.
    pub fn next(&mut self) -> (r: Option<Option<TrackedWriteFetch<T>>>)
        ensures
            old(self).pos < old(self).fetches@.len() ==> {
                &&& r == Some(old(self).fetches@[old(self).pos as int])
                &&& final(self).pos == old(self).pos + 1
                &&& final(self).fetches@ == old(self).fetches@.update(
                    old(self).pos as int,
                    None::<TrackedWriteFetch<T>>,
                )
            },
            old(self).pos >= old(self).fetches@.len() ==> {
                &&& r is None
                &&& *final(self) == *old(self)
            },
    {
        if self.pos < self.fetches.len() {
            let i = self.pos;
            let item = self.fetches[i].take();
            self.pos = self.pos + 1;
            Some(item)
        } else {
            None
        }
    }
}

/// One archetype's bound tracked fetch: an exclusive window on the matching
/// column, carrying the column's already-advanced version. Supports typed
/// retrieval gated by a type-tag check, and length-known splittable
/// iteration.
pub struct TrackedWriteFetch<T>(pub ComponentSliceMut<T>);

impl<T> From<ComponentSliceMut<T>> for TrackedWriteFetch<T> {
    /// Binds a mutable column window as a tracked fetch.
    fn from(slice: ComponentSliceMut<T>) -> (r: Self) {
        TrackedWriteFetch(slice)
    }
}

impl<T> vstd::std_specs::convert::FromSpecImpl<ComponentSliceMut<T>> for TrackedWriteFetch<T> {
    open spec fn obeys_from_spec() -> bool {
        true
    }

    open spec fn from_spec(slice: ComponentSliceMut<T>) -> Self {
        TrackedWriteFetch(slice)
    }
}

impl<T> TrackedWriteFetch<T> {
    /// Wraps this fetch for indexed, splittable consumption, starting at
    /// row zero.
    pub fn into_indexable_iter(self) -> (r: IndexedIter<T>)
        ensures
            r.fetch == self,
            r.pos == 0,
    {
        IndexedIter::new(self)
    }

    /// Number of rows; exact and stable for this fetch's whole existence.
    pub fn len(&self) -> (r: usize)
        ensures
            r == self.0.data@.len(),
    {
        self.0.len()
    }

    /// Exclusive access to row `i`; the bound `i < len()` is the caller's
    /// obligation, discharged statically. Leaves tag and version untouched.
    pub fn get_unchecked(&mut self, i: usize) -> (r: &mut T)
        requires
            i < old(self).0.data@.len(),
        ensures
            *r == old(self).0.data@[i as int],
            final(self).0.data@ == old(self).0.data@.update(i as int, *final(r)),
            final(self).0.tag == old(self).0.tag,
            final(self).0.version == old(self).0.version,
    {
        self.0.get_component_mut(i)
    }

    /// Partitions the fetch into two independent fetches over the disjoint
    /// row ranges `[0, k)` and `[k, len)`: their lengths are `k` and
    /// `len - k`, and traversing the left half then the right visits
    /// exactly the original rows in order.
    pub fn split_at(self, k: usize) -> (r: (Self, Self))
        requires
            k <= self.0.data@.len(),
        ensures
            r.0.0.data@ == self.0.data@.subrange(0, k as int),
            r.1.0.data@ == self.0.data@.subrange(k as int, self.0.data@.len() as int),
            r.0.0.data@ + r.1.0.data@ == self.0.data@,
            r.0.0.tag == self.0.tag && r.1.0.tag == self.0.tag,
            r.0.0.version == self.0.version && r.1.0.version == self.0.version,
    {
        let (left, right) = self.0.split_at(k);
        (TrackedWriteFetch(left), TrackedWriteFetch(right))
    }

    /// Gives up the fetch, yielding the rows themselves.
    pub fn into_components(self) -> (r: Vec<T>)
        ensures
            r@ == self.0.data@,
    {
        self.0.into_slice()
    }

    /// Checked typed retrieval: the rows, but only when the requested
    /// component type `c` is exactly the bound column's type. Any other
    /// request answers `None` — never a reinterpretation.
    pub fn find(&self, c: ComponentTypeId) -> (r: Option<&Vec<T>>)
        ensures
            match r {
                Some(d) => c == self.0.tag && d@ == self.0.data@,
                None => c != self.0.tag,
            },
    {
        if c == self.0.tag {
            Some(&self.0.data)
        } else {
            None
        }
    }

    /// Checked typed retrieval, exclusive: as [`Self::find`], but the rows
    /// may be mutated through the result.
    pub fn find_mut(&mut self, c: ComponentTypeId) -> (r: Option<&mut Vec<T>>)
        ensures
            match r {
                Some(m) => {
                    &&& c == old(self).0.tag
                    &&& *m == old(self).0.data
                    &&& final(self).0.data == *final(m)
                    &&& final(self).0.tag == old(self).0.tag
                    &&& final(self).0.version == old(self).0.version
                },
                None => c != old(self).0.tag && *final(self) == *old(self),
            },
    {
        if c == self.0.tag {
            Some(&mut self.0.data)
        } else {
            None
        }
    }

    /// Change detection: the bound column's live version when the requested
    /// component type `c` matches the bound column, `None` for any other
    /// type. A caller comparing the answer against an older remembered
    /// version must treat the rows as possibly changed.
    pub fn version(&self, c: ComponentTypeId) -> (r: Option<Version>)
        ensures
            match r {
                Some(v) => c == self.0.tag && v == self.0.version,
                None => c != self.0.tag,
            },
    {
        if c == self.0.tag {
            Some(self.0.version())
        } else {
            None
        }
    }
}

} // verus!
