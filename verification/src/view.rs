//! Views: compile-shape descriptors of what a query touches and how.
//!
//! A view declares its read and write type sets as [`Permissions`], derives
//! a default filter, validates itself and a caller-held grant, and — once
//! admitted — binds one fetch per matching archetype. [`Read`] borrows one
//! column shared; [`Write`] takes one column exclusively, advancing its
//! version; [`ReadPair`] reads two columns of the same archetype in the
//! shared row order, which is what keeps rows of different columns aligned
//! to the same entity.

use vstd::prelude::*;

use crate::filter::EntityFilterTuple;
use crate::filter::QueryResult;
use crate::permissions::ComponentAccess;
use crate::permissions::Permissions;
use crate::storage::Archetype;
use crate::storage::ComponentSlice;
use crate::storage::ComponentSliceMut;
use crate::storage::ComponentTypeId;
use crate::storage::Components;
use crate::storage::Version;

verus! {

/// View reading one component type: requires `{reads: {tag}}` and borrows
/// the column shared.
pub struct Read {
    /// The component type this view reads.
    pub tag: ComponentTypeId,
}

impl Read {
    /// The read view of component type `tag`.
    pub fn new(tag: ComponentTypeId) -> (r: Self)
        ensures
            r.tag == tag,
    {
        Read { tag }
    }

    /// Exactly the permissions this view needs: one read, no writes.
    pub fn requires_permissions(&self) -> (r: Permissions)
        ensures
            r.read_set() == Set::<ComponentTypeId>::empty().insert(self.tag),
            r.write_set() == Set::<ComponentTypeId>::empty(),
    {
        Permissions::read_only(self.tag)
    }

    /// The component types this view declares as reads: its own.
    pub fn reads_types(&self) -> (r: Vec<ComponentTypeId>)
        ensures
            r@ == seq![self.tag],
    {
        let mut v: Vec<ComponentTypeId> = Vec::new();
        v.push(self.tag);
        proof {
            assert(v@ =~= seq![self.tag]);
        }
        v
    }

    /// The component types this view declares as writes: none.
    pub fn writes_types(&self) -> (r: Vec<ComponentTypeId>)
        ensures
            r@ == Seq::<ComponentTypeId>::empty(),
    {
        let v: Vec<ComponentTypeId> = Vec::new();
        proof {
            assert(v@ =~= Seq::<ComponentTypeId>::empty());
        }
        v
    }

    /// The types this view reads: its own component type.
    pub fn reads(&self, d: ComponentTypeId) -> (r: bool)
        ensures
            r == (d == self.tag),
    {
        d == self.tag
    }

    /// The types this view writes: none.
    pub fn writes(&self, _d: ComponentTypeId) -> (r: bool)
        ensures
            !r,
    {
        false
    }

    /// Static self-consistency: a single read never conflicts with itself.
    pub fn validate(&self) -> (r: bool)
        ensures
            r,
    {
        true
    }

    /// Whether a held grant suffices: the tag must be readable, which a
    /// held read or a held write (writer-can-read) both provide.
    pub fn validate_access(&self, access: &ComponentAccess) -> (r: bool)
        ensures
            r == (access.grant.read_set().contains(self.tag) || access.grant.write_set().contains(
                self.tag,
            )),
    {
        let req = self.requires_permissions();
        let r = access.allows(&req);
        proof {
            let held = access.grant.read_set().union(access.grant.write_set());
            if held.contains(self.tag) {
                assert forall|x: ComponentTypeId| req.read_set().contains(x) implies held.contains(
                    x,
                ) by {
                    assert(x == self.tag);
                }
            } else {
                assert(req.read_set().contains(self.tag));
            }
        }
        r
    }

    /// The filter this view implies: archetypes carrying its column, with no
    /// entity-level refinement.
    pub fn default_filter(&self) -> (r: EntityFilterTuple)
        ensures
            r.arch.tag == self.tag,
    {
        EntityFilterTuple::new(self.tag)
    }

    /// Binds one shared fetch per archetype the query visits: the column's
    /// rows, version and row order, or `None` where the archetype carries no
    /// such column (or its rows are lent out to a writer).
    pub fn fetch<'a, T>(
        &self,
        components: &'a Components<T>,
        archetypes: &'a Vec<Archetype>,
        query: &QueryResult,
    ) -> (r: Vec<Option<ComponentSlice<'a, T>>>)
        requires
            components.wf(archetypes@),
            query.wf(archetypes@),
        ensures
            r@.len() == query.indices@.len(),
            forall|k: int|
                0 <= k < r@.len() ==> {
                    let a = #[trigger] query.indices@[k] as int;
                    match r@[k] {
                        Some(s) => {
                            &&& archetypes@[a].tags@.contains(self.tag)
                            &&& components.col_present(archetypes@, a, self.tag)
                            &&& s.tag == self.tag
                            &&& s.version == components.col_version(archetypes@, a, self.tag)
                            &&& s.data@ == components.col_data(archetypes@, a, self.tag)
                            &&& s.entities@ == archetypes@[a].entities@
                            &&& s.data@.len() == s.entities@.len()
                        },
                        None => !(archetypes@[a].tags@.contains(self.tag)
                            && components.col_present(archetypes@, a, self.tag)),
                    }
                },
    {
        let n = query.len();
        let mut out: Vec<Option<ComponentSlice<'a, T>>> = Vec::new();
        let mut k: usize = 0;
        while k < n
            invariant
                components.wf(archetypes@),
                query.wf(archetypes@),
                n == query.indices@.len(),
                k <= n,
                out@.len() == k,
                forall|j: int|
                    0 <= j < k ==> {
                        let a = #[trigger] query.indices@[j] as int;
                        match out@[j] {
                            Some(s) => {
                                &&& archetypes@[a].tags@.contains(self.tag)
                                &&& components.col_present(archetypes@, a, self.tag)
                                &&& s.tag == self.tag
                                &&& s.version == components.col_version(archetypes@, a, self.tag)
                                &&& s.data@ == components.col_data(archetypes@, a, self.tag)
                                &&& s.entities@ == archetypes@[a].entities@
                                &&& s.data@.len() == s.entities@.len()
                            },
                            None => !(archetypes@[a].tags@.contains(self.tag)
                                && components.col_present(archetypes@, a, self.tag)),
                        }
                    },
            decreases n - k,
        {
            let a = query.index(k);
            let s = components.get_slice(archetypes, a, self.tag);
            out.push(s);
            k = k + 1;
        }
        out
    }
}

/// View writing one component type: requires `{writes: {tag}}` and takes
/// the column exclusively, advancing its version once per archetype fetched.
pub struct Write {
    /// The component type this view writes.
    pub tag: ComponentTypeId,
}

impl Write {
    /// The write view of component type `tag`.
    pub fn new(tag: ComponentTypeId) -> (r: Self)
        ensures
            r.tag == tag,
    {
        Write { tag }
    }

    /// Exactly the permissions this view needs: one write, no separate read.
    pub fn requires_permissions(&self) -> (r: Permissions)
        ensures
            r.read_set() == Set::<ComponentTypeId>::empty(),
            r.write_set() == Set::<ComponentTypeId>::empty().insert(self.tag),
    {
        Permissions::write_only(self.tag)
    }

    /// The component types this view declares as reads: none beyond the
    /// write itself.
    pub fn reads_types(&self) -> (r: Vec<ComponentTypeId>)
        ensures
            r@ == Seq::<ComponentTypeId>::empty(),
    {
        let v: Vec<ComponentTypeId> = Vec::new();
        proof {
            assert(v@ =~= Seq::<ComponentTypeId>::empty());
        }
        v
    }

    /// The component types this view declares as writes: its own.
    pub fn writes_types(&self) -> (r: Vec<ComponentTypeId>)
        ensures
            r@ == seq![self.tag],
    {
        let mut v: Vec<ComponentTypeId> = Vec::new();
        v.push(self.tag);
        proof {
            assert(v@ =~= seq![self.tag]);
        }
        v
    }

    /// The types this view reads: a writer may also read its own component.
    pub fn reads(&self, d: ComponentTypeId) -> (r: bool)
        ensures
            r == (d == self.tag),
    {
        d == self.tag
    }

    /// The types this view writes: its own component type.
    pub fn writes(&self, d: ComponentTypeId) -> (r: bool)
        ensures
            r == (d == self.tag),
    {
        d == self.tag
    }

    /// Static self-consistency: a single write never conflicts with itself.
    pub fn validate(&self) -> (r: bool)
        ensures
            r,
    {
        true
    }

    /// Whether a held grant suffices: the tag must be held as a write; a
    /// held read is not enough for exclusive access.
    pub fn validate_access(&self, access: &ComponentAccess) -> (r: bool)
        ensures
            r == access.grant.write_set().contains(self.tag),
    {
        let req = self.requires_permissions();
        let r = access.allows(&req);
        proof {
            if access.grant.write_set().contains(self.tag) {
                assert forall|x: ComponentTypeId| req.write_set().contains(x) implies access
                    .grant
                    .write_set()
                    .contains(x) by {
                    assert(x == self.tag);
                }
            } else {
                assert(req.write_set().contains(self.tag));
            }
        }
        r
    }

    /// The filter this view implies: archetypes carrying its column, with no
    /// entity-level refinement.
    pub fn default_filter(&self) -> (r: EntityFilterTuple)
        ensures
            r.arch.tag == self.tag,
    {
        EntityFilterTuple::new(self.tag)
    }

    /// Binds one exclusive fetch per archetype the query visits. Each bound
    /// column's version advances exactly once, its rows leave the store
    /// until restored, and every column the query does not bind is
    /// untouched. `None` marks an archetype without the column, or one
    /// whose rows another fetch already holds; such archetypes are left
    /// exactly as they were.
    #[verifier::loop_isolation(false)]
    pub fn fetch<T>(
        &self,
        components: &mut Components<T>,
        archetypes: &Vec<Archetype>,
        query: &QueryResult,
    ) -> (r: Vec<Option<ComponentSliceMut<T>>>)
        requires
            old(components).wf(archetypes@),
            query.wf(archetypes@),
            forall|k: int|
                0 <= k < query.indices@.len() ==> {
                    let a = #[trigger] query.indices@[k] as int;
                    archetypes@[a].tags@.contains(self.tag) && old(components).col_present(
                        archetypes@,
                        a,
                        self.tag,
                    ) ==> old(components).col_version(archetypes@, a, self.tag) < Version::MAX
                },
        ensures
            final(components).wf(archetypes@),
            r@.len() == query.indices@.len(),
            forall|k: int|
                0 <= k < r@.len() ==> {
                    let a = #[trigger] query.indices@[k] as int;
                    match r@[k] {
                        Some(s) => {
                            &&& archetypes@[a].tags@.contains(self.tag)
                            &&& old(components).col_present(archetypes@, a, self.tag)
                            &&& s.tag == self.tag
                            &&& s.data@ == old(components).col_data(archetypes@, a, self.tag)
                            &&& s.data@.len() == archetypes@[a].entities@.len()
                            &&& s.version == old(components).col_version(archetypes@, a, self.tag)
                                + 1
                            &&& final(components).col_version(archetypes@, a, self.tag)
                                == s.version
                            &&& !final(components).col_present(archetypes@, a, self.tag)
                        },
                        None => {
                            &&& !(archetypes@[a].tags@.contains(self.tag) && old(
                                components,
                            ).col_present(archetypes@, a, self.tag))
                            &&& archetypes@[a].tags@.contains(self.tag)
                                ==> final(components).col_at(archetypes@, a, self.tag)
                                == old(components).col_at(archetypes@, a, self.tag)
                        },
                    }
                },
            forall|a2: int, t2: ComponentTypeId|
                0 <= a2 < archetypes@.len() && archetypes@[a2].tags@.contains(t2) && !(t2
                    == self.tag && query.indices@.contains(a2 as usize))
                    ==> final(components).col_at(archetypes@, a2, t2) == old(components).col_at(
                    archetypes@,
                    a2,
                    t2,
                ),
    {
        let n = query.len();
        let mut out: Vec<Option<ComponentSliceMut<T>>> = Vec::new();
        let mut k: usize = 0;
        while k < n
            invariant
                components.wf(archetypes@),
                k <= n,
                out@.len() == k,
                forall|j: int|
                    0 <= j < k ==> {
                        let a = #[trigger] query.indices@[j] as int;
                        match out@[j] {
                            Some(s) => {
                                &&& archetypes@[a].tags@.contains(self.tag)
                                &&& old(components).col_present(archetypes@, a, self.tag)
                                &&& s.tag == self.tag
                                &&& s.data@ == old(components).col_data(archetypes@, a, self.tag)
                                &&& s.data@.len() == archetypes@[a].entities@.len()
                                &&& s.version == old(components).col_version(
                                    archetypes@,
                                    a,
                                    self.tag,
                                ) + 1
                                &&& components.col_version(archetypes@, a, self.tag) == s.version
                                &&& !components.col_present(archetypes@, a, self.tag)
                            },
                            None => {
                                &&& !(archetypes@[a].tags@.contains(self.tag) && old(
                                    components,
                                ).col_present(archetypes@, a, self.tag))
                                &&& archetypes@[a].tags@.contains(self.tag) ==> components.col_at(
                                    archetypes@,
                                    a,
                                    self.tag,
                                ) == old(components).col_at(archetypes@, a, self.tag)
                            },
                        }
                    },
                forall|a2: int, t2: ComponentTypeId|
                    0 <= a2 < archetypes@.len() && archetypes@[a2].tags@.contains(t2) && !(t2
                        == self.tag && query.indices@.subrange(0, k as int).contains(a2 as usize))
                        ==> components.col_at(archetypes@, a2, t2) == old(components).col_at(
                        archetypes@,
                        a2,
                        t2,
                    ),
            decreases n - k,
        {
            let a = query.index(k);
            proof {
                assert(!query.indices@.subrange(0, k as int).contains(a)) by {
                    if query.indices@.subrange(0, k as int).contains(a) {
                        let j = choose|j: int|
                            0 <= j < k && query.indices@.subrange(0, k as int)[j] == a;
                        assert(query.indices@[j] < query.indices@[k as int]);
                    }
                }
                if archetypes@[a as int].tags@.contains(self.tag) {
                    assert(components.col_at(archetypes@, a as int, self.tag) == old(
                        components,
                    ).col_at(archetypes@, a as int, self.tag));
                }
            }
            let ghost prev = *components;
            let s = components.take_column(archetypes, a, self.tag);
            proof {
                assert(query.indices@.subrange(0, k as int + 1) =~= query.indices@.subrange(
                    0,
                    k as int,
                ).push(a));
                // Columns at other coordinates did not move in this step.
                assert forall|a2: int, t2: ComponentTypeId|
                    0 <= a2 < archetypes@.len() && archetypes@[a2].tags@.contains(t2) && !(a2
                        == a as int && t2 == self.tag) implies components.col_at(
                    archetypes@,
                    a2,
                    t2,
                ) == prev.col_at(archetypes@, a2, t2) by {
                    if s is Some {
                        let arch2 = archetypes@[a2];
                        let s2 = arch2.slot_of(t2);
                        assert(0 <= s2 < arch2.tags@.len() && arch2.tags@[s2] == t2);
                        if a2 == a as int {
                            let st = arch2.slot_of(self.tag);
                            assert(0 <= st < arch2.tags@.len() && arch2.tags@[st] == self.tag);
                            assert(s2 != st);
                        }
                    }
                }
                // Columns of earlier iterations keep their fetched state.
                assert forall|j: int| 0 <= j < k implies components.col_at(
                    archetypes@,
                    query.indices@[j] as int,
                    self.tag,
                ) == prev.col_at(archetypes@, query.indices@[j] as int, self.tag) by {
                    assert(query.indices@[j] < query.indices@[k as int]);
                }
            }
            out.push(s);
            k = k + 1;
            proof {
                assert forall|a2: int, t2: ComponentTypeId|
                    0 <= a2 < archetypes@.len() && archetypes@[a2].tags@.contains(t2) && !(t2
                        == self.tag && query.indices@.subrange(0, k as int).contains(a2 as usize))
                        implies components.col_at(archetypes@, a2, t2) == old(components).col_at(
                    archetypes@,
                    a2,
                    t2,
                ) by {
                    let pfx = query.indices@.subrange(0, k as int - 1);
                    if t2 == self.tag {
                        assert(!pfx.contains(a2 as usize)) by {
                            if pfx.contains(a2 as usize) {
                                let j = choose|j: int| 0 <= j < pfx.len() && pfx[j] == a2 as usize;
                                assert(query.indices@.subrange(0, k as int)[j] == a2 as usize);
                            }
                        }
                        assert(a2 != a as int) by {
                            if a2 == a as int {
                                assert(query.indices@.subrange(0, k as int)[k - 1] == a);
                            }
                        }
                    }
                    assert(prev.col_at(archetypes@, a2, t2) == old(components).col_at(
                        archetypes@,
                        a2,
                        t2,
                    ));
                }
            }
        }
        proof {
            assert(query.indices@.subrange(0, n as int) =~= query.indices@);
        }
        out
    }
}

/// View reading two component types of one archetype at once, in the shared
/// row order: the shape cross-component consumers use, where row `i` of both
/// columns must belong to one entity.
pub struct ReadPair {
    /// The first component read.
    pub first: Read,
    /// The second component read.
    pub second: Read,
}

/// A pair fetch bound to one archetype: both columns, borrowed shared,
/// carrying the one row order they share.
pub struct ReadPairSlice<'a, T> {
    /// The first component's column.
    pub first: ComponentSlice<'a, T>,
    /// The second component's column.
    pub second: ComponentSlice<'a, T>,
}

impl<'a, T> ReadPairSlice<'a, T> {
    /// Both columns come from one archetype: one shared row order, one row
    /// per entity in each.
    pub open spec fn aligned(&self) -> bool {
        &&& self.first.entities@ == self.second.entities@
        &&& self.first.data@.len() == self.first.entities@.len()
        &&& self.second.data@.len() == self.second.entities@.len()
    }

    /// Number of rows (equal in both columns).
    pub fn len(&self) -> (r: usize)
        requires
            self.aligned(),
        ensures
            r == self.first.data@.len(),
            r == self.second.data@.len(),
    {
        self.first.len()
    }

    /// Row `i` of both columns: two components of one and the same entity.
    pub fn get(&self, i: usize) -> (r: (&'a T, &'a T))
        requires
            self.aligned(),
            i < self.first.data@.len(),
        ensures
            *r.0 == self.first.data@[i as int],
            *r.1 == self.second.data@[i as int],
            self.first.entity_of(i as int) == self.second.entity_of(i as int),
    {
        (self.first.get(i), self.second.get(i))
    }
}

/// Alignment: in a pair fetch bound to one archetype, row `i` of the first
/// column and row `i` of the second belong to the same entity, for every
/// row index in range.
pub proof fn lemma_pair_alignment<T>(s: ReadPairSlice<T>, i: int)
    requires
        s.aligned(),
        0 <= i < s.first.data@.len(),
    ensures
        i < s.second.data@.len(),
        s.first.entity_of(i) == s.second.entity_of(i),
{
}

impl ReadPair {
    /// What one per-archetype entry of a pair fetch over archetype `a`
    /// must be: an aligned pair of exactly the two columns, or `None`
    /// exactly when the archetype does not carry both.
    pub open spec fn entry_ok<'a, T>(
        &self,
        components: Components<T>,
        archs: Seq<Archetype>,
        a: int,
        e: Option<ReadPairSlice<'a, T>>,
    ) -> bool {
        match e {
            Some(s) => {
                &&& s.aligned()
                &&& s.first.tag == self.first.tag
                &&& s.second.tag == self.second.tag
                &&& s.first.data@ == components.col_data(archs, a, self.first.tag)
                &&& s.second.data@ == components.col_data(archs, a, self.second.tag)
                &&& s.first.entities@ == archs[a].entities@
                &&& s.second.entities@ == archs[a].entities@
            },
            None => !(archs[a].tags@.contains(self.first.tag) && components.col_present(
                archs,
                a,
                self.first.tag,
            ) && archs[a].tags@.contains(self.second.tag) && components.col_present(
                archs,
                a,
                self.second.tag,
            )),
        }
    }

    /// The view reading component types `first` and `second` together.
    pub fn new(first: ComponentTypeId, second: ComponentTypeId) -> (r: Self)
        ensures
            r.first.tag == first,
            r.second.tag == second,
    {
        ReadPair { first: Read::new(first), second: Read::new(second) }
    }

    /// Exactly the permissions this view needs: both reads, no writes.
    pub fn requires_permissions(&self) -> (r: Permissions)
        ensures
            r.read_set() == Set::<ComponentTypeId>::empty().insert(self.first.tag).insert(
                self.second.tag,
            ),
            r.write_set() == Set::<ComponentTypeId>::empty(),
    {
        let mut p = Permissions::read_only(self.first.tag);
        p.add_read(self.second.tag);
        p
    }

    /// Static self-consistency: a tuple of two reads declares no type both
    /// read and written, whatever its tags.
    pub fn validate(&self) -> (r: bool)
        ensures
            r,
    {
        let p = self.requires_permissions();
        proof {
            assert(p.wf());
        }
        true
    }

    /// Whether a held grant covers both reads (a held write of either tag
    /// also grants its read).
    pub fn validate_access(&self, access: &ComponentAccess) -> (r: bool)
        ensures
            r == ((access.grant.read_set().contains(self.first.tag)
                || access.grant.write_set().contains(self.first.tag)) && (access.grant.read_set()
                .contains(self.second.tag) || access.grant.write_set().contains(self.second.tag))),
    {
        let a = self.first.validate_access(access);
        let b = self.second.validate_access(access);
        a && b
    }

    /// Binds both columns of archetype `a`, or `None` where either column
    /// is missing or lent out — the defensive per-archetype check. A bound
    /// pair is aligned: one shared row order for both columns.
    pub fn fetch_one<'a, T>(
        &self,
        components: &'a Components<T>,
        archetypes: &'a Vec<Archetype>,
        a: usize,
    ) -> (r: Option<ReadPairSlice<'a, T>>)
        requires
            components.wf(archetypes@),
            a < archetypes@.len(),
        ensures
            match r {
                Some(s) => {
                    &&& s.aligned()
                    &&& s.first.tag == self.first.tag
                    &&& s.second.tag == self.second.tag
                    &&& s.first.data@ == components.col_data(archetypes@, a as int, self.first.tag)
                    &&& s.second.data@ == components.col_data(
                        archetypes@,
                        a as int,
                        self.second.tag,
                    )
                    &&& s.first.entities@ == archetypes@[a as int].entities@
                    &&& s.second.entities@ == archetypes@[a as int].entities@
                },
                None => !(archetypes@[a as int].tags@.contains(self.first.tag)
                    && components.col_present(archetypes@, a as int, self.first.tag)
                    && archetypes@[a as int].tags@.contains(self.second.tag)
                    && components.col_present(archetypes@, a as int, self.second.tag)),
            },
    {
        let f = components.get_slice(archetypes, a, self.first.tag);
        match f {
            None => None,
            Some(first) => {
                let s = components.get_slice(archetypes, a, self.second.tag);
                match s {
                    None => None,
                    Some(second) => Some(ReadPairSlice { first, second }),
                }
            },
        }
    }

    /// Binds one aligned pair fetch per archetype the query visits, `None`
    /// for archetypes that do not carry both columns.
    pub fn fetch<'a, T>(
        &self,
        components: &'a Components<T>,
        archetypes: &'a Vec<Archetype>,
        query: &QueryResult,
    ) -> (r: Vec<Option<ReadPairSlice<'a, T>>>)
        requires
            components.wf(archetypes@),
            query.wf(archetypes@),
        ensures
            r@.len() == query.indices@.len(),
            forall|k: int|
                0 <= k < r@.len() ==> self.entry_ok(
                    *components,
                    archetypes@,
                    query.indices@[k] as int,
                    #[trigger] r@[k],
                ),
    {
        let n = query.len();
        let mut out: Vec<Option<ReadPairSlice<'a, T>>> = Vec::new();
        let mut k: usize = 0;
        while k < n
            invariant
                components.wf(archetypes@),
                query.wf(archetypes@),
                n == query.indices@.len(),
                k <= n,
                out@.len() == k,
                forall|j: int|
                    0 <= j < k ==> self.entry_ok(
                        *components,
                        archetypes@,
                        query.indices@[j] as int,
                        #[trigger] out@[j],
                    ),
            decreases n - k,
        {
            let a = query.index(k);
            let s = self.fetch_one(components, archetypes, a);
            proof {
                assert(self.entry_ok(*components, archetypes@, a as int, s));
            }
            out.push(s);
            k = k + 1;
        }
        out
    }
}

} // verus!
