//! Archetype storage: typed columns in a shared row order, with per-column
//! mutation versions.
//!
//! An [`Archetype`] records which component types its entities carry and the
//! entity that owns each row. The [`Components`] store holds, for every
//! archetype, one [`Column`] per component type, in the same order as the
//! archetype's tag list. All columns of one archetype have one row per live
//! entity, so row `i` of every column belongs to the same entity.
//!
//! Exclusive access is modelled linearly: a mutable fetch removes the
//! column's data from the store (leaving the slot empty) and hands it out as
//! an owned [`ComponentSliceMut`]; while it is out, every other fetch of that
//! column sees "no data". Restoring the slice puts the rows back. The
//! column's version is advanced exactly once, when the mutable fetch begins.

use vstd::prelude::*;

verus! {

/// Stable identifier of a component's static type; the key every column
/// lookup uses. No two columns of one archetype share a `ComponentTypeId`.
#[derive(Clone, Copy, PartialEq, Eq, Structural, Debug)]
pub struct ComponentTypeId(pub u64);

/// Per-column mutation counter: strictly increased by every mutable fetch of
/// the column, never otherwise. Comparing a remembered version against the
/// current one detects whether any mutation may have happened in between.
pub type Version = u64;

/// One archetype: the ordered set of component types its entities carry, and
/// the entity owning each row. Every column of this archetype has exactly
/// `entities.len()` rows, row `i` belonging to `entities[i]`.
pub struct Archetype {
    /// The component types stored for these entities, without duplicates.
    pub tags: Vec<ComponentTypeId>,
    /// Row order: the entity that owns row `i`, shared by all columns.
    pub entities: Vec<u64>,
}

impl Archetype {
    /// Well-formed: no component type appears twice.
    pub open spec fn wf(&self) -> bool {
        forall|i: int, j: int|
            0 <= i < j < self.tags@.len() ==> self.tags@[i] != self.tags@[j]
    }

    /// The position of component type `t` in the tag list (meaningful only
    /// when the archetype has a column for `t`).
    pub open spec fn slot_of(&self, t: ComponentTypeId) -> int {
        self.tags@.index_of(t)
    }

    /// Number of rows (live entities) in this archetype.
    pub fn len(&self) -> (r: usize)
        ensures
            r == self.entities@.len(),
    {
        self.entities.len()
    }

    /// Looks up the column slot for component type `t`.
    pub fn index_of(&self, t: ComponentTypeId) -> (r: Option<usize>)
        ensures
            match r {
                Some(i) => i < self.tags@.len() && self.tags@[i as int] == t,
                None => !self.tags@.contains(t),
            },
    {
        let mut i: usize = 0;
        while i < self.tags.len()
            invariant
                i <= self.tags@.len(),
                forall|j: int| 0 <= j < i ==> self.tags@[j] != t,
            decreases self.tags@.len() - i,
        {
            if self.tags[i] == t {
                return Some(i);
            }
            i = i + 1;
        }
        None
    }

    /// Whether this archetype has a column for component type `t`.
    pub fn has_component(&self, t: ComponentTypeId) -> (r: bool)
        ensures
            r == self.tags@.contains(t),
    {
        let r = self.index_of(t);
        proof {
            if r is Some {
                assert(self.tags@[r.unwrap() as int] == t);
            }
        }
        r.is_some()
    }
}

/// In a well-formed archetype, any slot holding `t` is the slot `slot_of`
/// names.
pub proof fn lemma_slot_of(arch: Archetype, t: ComponentTypeId, i: int)
    requires
        arch.wf(),
        0 <= i < arch.tags@.len(),
        arch.tags@[i] == t,
    ensures
        arch.tags@.contains(t),
        arch.slot_of(t) == i,
{
    assert(arch.tags@.contains(t));
    let s = arch.slot_of(t);
    assert(0 <= s < arch.tags@.len() && arch.tags@[s] == t) by {
        assert(0 <= i < arch.tags@.len() && arch.tags@[i] == t);
    }
    if s != i {
        assert(arch.tags@[s] != arch.tags@[i]);
    }
}

/// One archetype's contiguous storage for a single component type, tagged
/// with its mutation version. `data` is `None` exactly while a mutable fetch
/// holds the rows.
pub struct Column<T> {
    /// The component type stored here.
    pub tag: ComponentTypeId,
    /// Mutation counter; advanced once per mutable fetch.
    pub version: Version,
    /// The rows, or `None` while they are lent out to a mutable fetch.
    pub data: Option<Vec<T>>,
}

/// A borrowed view of one column for one query execution, carrying the
/// column's version and the archetype's row order.
pub struct ComponentSlice<'a, T> {
    /// The component type of the column.
    pub tag: ComponentTypeId,
    /// The column's version at the time of the fetch.
    pub version: Version,
    /// The rows of the column.
    pub data: &'a Vec<T>,
    /// The entity owning each row; `entities[i]` owns `data[i]`.
    pub entities: &'a Vec<u64>,
}

impl<'a, T> ComponentSlice<'a, T> {
    /// The entity that owns row `i` (row order is shared by all columns of
    /// one archetype).
    pub open spec fn entity_of(&self, i: int) -> u64 {
        self.entities@[i]
    }

    /// Number of rows.
    pub fn len(&self) -> (r: usize)
        ensures
            r == self.data@.len(),
    {
        self.data.len()
    }

    /// The column's version at fetch time.
    pub fn version(&self) -> (r: Version)
        ensures
            r == self.version,
    {
        self.version
    }

    /// Row `i` of the column.
    pub fn get(&self, i: usize) -> (r: &'a T)
        requires
            i < self.data@.len(),
        ensures
            *r == self.data@[i as int],
    {
        &self.data[i]
    }
}

/// An owned, exclusive window on one column's rows, taken out of the store
/// for the duration of one mutable fetch. While it exists, the store's slot
/// for this column is empty, so no second access can alias it.
pub struct ComponentSliceMut<T> {
    /// The component type of the column.
    pub tag: ComponentTypeId,
    /// The column's version, already advanced for this fetch.
    pub version: Version,
    /// The rows, owned until restored.
    pub data: Vec<T>,
}

impl<T> ComponentSliceMut<T> {
    /// Number of rows in this window.
    pub fn len(&self) -> (r: usize)
        ensures
            r == self.data@.len(),
    {
        self.data.len()
    }

    /// The column's version for this fetch epoch. Grouped row accesses within
    /// one fetch do not change it; only a new fetch does.
    pub fn version(&self) -> (r: Version)
        ensures
            r == self.version,
    {
        self.version
    }

    /// Exclusive access to row `i`. Leaves the version untouched: the version
    /// advances once per fetch, not once per row.
    pub fn get_component_mut(&mut self, i: usize) -> (r: &mut T)
        requires
            i < old(self).data@.len(),
        ensures
            *r == old(self).data@[i as int],
            final(self).data@ == old(self).data@.update(i as int, *final(r)),
            final(self).tag == old(self).tag,
            final(self).version == old(self).version,
    {
        &mut self.data[i]
    }

    /// Partitions the window into the disjoint row ranges `[0, k)` and
    /// `[k, len)`; both halves keep the column's tag and version. The two
    /// halves concatenate back to exactly the original rows.
    pub fn split_at(self, k: usize) -> (r: (Self, Self))
        requires
            k <= self.data@.len(),
        ensures
            r.0.data@ == self.data@.subrange(0, k as int),
            r.1.data@ == self.data@.subrange(k as int, self.data@.len() as int),
            r.0.data@ + r.1.data@ == self.data@,
            r.0.tag == self.tag && r.1.tag == self.tag,
            r.0.version == self.version && r.1.version == self.version,
    {
        let ghost orig: Seq<T> = self.data@;
        let mut left = self;
        let right_data = left.data.split_off(k);
        proof {
            assert(left.data@ + right_data@ =~= orig);
        }
        let right = ComponentSliceMut { tag: left.tag, version: left.version, data: right_data };
        (left, right)
    }

    /// Gives up the window, yielding the rows themselves.
    pub fn into_slice(self) -> (r: Vec<T>)
        ensures
            r@ == self.data@,
    {
        self.data
    }
}

/// Every column of `post` other than archetype `a`'s column for `t` is
/// exactly the column `pre` had.
pub open spec fn columns_unchanged_except<T>(
    pre: Components<T>,
    post: Components<T>,
    archs: Seq<Archetype>,
    a: int,
    t: ComponentTypeId,
) -> bool {
    &&& post.stores@.len() == pre.stores@.len()
    &&& forall|b: int|
        0 <= b < pre.stores@.len() && b != a ==> (#[trigger] post.stores@[b]) == pre.stores@[b]
    &&& 0 <= a < pre.stores@.len() ==> {
        &&& post.stores@[a]@.len() == pre.stores@[a]@.len()
        &&& forall|i: int|
            0 <= i < pre.stores@[a]@.len() && i != archs[a].slot_of(t)
                ==> (#[trigger] post.stores@[a]@[i]) == pre.stores@[a]@[i]
    }
}

/// The typed-column store: for each archetype (by index), one column per
/// component type, in the same order as that archetype's tag list.
pub struct Components<T> {
    /// `stores[a][i]` is archetype `a`'s column for its `i`-th tag.
    pub stores: Vec<Vec<Column<T>>>,
}

impl<T> Components<T> {
    /// The column archetype `a` keeps for component type `t` (meaningful only
    /// when `archs[a]` has a column for `t`).
    pub open spec fn col_at(&self, archs: Seq<Archetype>, a: int, t: ComponentTypeId) -> Column<T> {
        self.stores@[a]@[archs[a].slot_of(t)]
    }

    /// Whether the rows of archetype `a`'s column for `t` are in the store
    /// (not lent out to a mutable fetch).
    pub open spec fn col_present(&self, archs: Seq<Archetype>, a: int, t: ComponentTypeId) -> bool {
        self.col_at(archs, a, t).data is Some
    }

    /// The rows of archetype `a`'s column for `t`.
    pub open spec fn col_data(&self, archs: Seq<Archetype>, a: int, t: ComponentTypeId) -> Seq<T> {
        self.col_at(archs, a, t).data.unwrap()@
    }

    /// The current version of archetype `a`'s column for `t`.
    pub open spec fn col_version(&self, archs: Seq<Archetype>, a: int, t: ComponentTypeId) -> Version {
        self.col_at(archs, a, t).version
    }

    /// Well-formed against the archetype list `archs`: one column list per
    /// archetype, columns keyed by the archetype's tags in order, and every
    /// present column holding one row per entity.
    pub open spec fn wf(&self, archs: Seq<Archetype>) -> bool {
        &&& self.stores@.len() == archs.len()
        &&& forall|a: int| 0 <= a < archs.len() ==> (#[trigger] archs[a]).wf()
        &&& forall|a: int|
            0 <= a < archs.len() ==> (#[trigger] self.stores@[a])@.len() == archs[a].tags@.len()
        &&& forall|a: int, i: int|
            0 <= a < archs.len() && 0 <= i < archs[a].tags@.len() ==> {
                &&& (#[trigger] self.stores@[a]@[i]).tag == archs[a].tags@[i]
                &&& (self.stores@[a]@[i].data is Some ==> self.stores@[a]@[i].data.unwrap()@.len()
                    == archs[a].entities@.len())
            }
    }

    /// Begins a mutable fetch of archetype `a`'s column for component type
    /// `t`: advances the column's version exactly once (pessimistically, on
    /// borrow acquisition) and takes the rows out of the store, so that no
    /// second access can alias them until they are restored. Yields `None`
    /// when the archetype has no column for `t`, or while another mutable
    /// fetch holds that column's rows; the store is then unchanged.
    pub fn take_column(
        &mut self,
        archetypes: &Vec<Archetype>,
        a: usize,
        t: ComponentTypeId,
    ) -> (r: Option<ComponentSliceMut<T>>)
        requires
            old(self).wf(archetypes@),
            a < archetypes@.len(),
            archetypes@[a as int].tags@.contains(t) && old(self).col_present(
                archetypes@,
                a as int,
                t,
            ) ==> old(self).col_version(archetypes@, a as int, t) < Version::MAX,
        ensures
            final(self).wf(archetypes@),
            match r {
                Some(s) => {
                    &&& archetypes@[a as int].tags@.contains(t)
                    &&& old(self).col_present(archetypes@, a as int, t)
                    &&& s.tag == t
                    &&& s.data@ == old(self).col_data(archetypes@, a as int, t)
                    &&& s.data@.len() == archetypes@[a as int].entities@.len()
                    &&& s.version == old(self).col_version(archetypes@, a as int, t) + 1
                    &&& final(self).col_version(archetypes@, a as int, t) == s.version
                    &&& !final(self).col_present(archetypes@, a as int, t)
                    &&& columns_unchanged_except(*old(self), *final(self), archetypes@, a as int, t)
                },
                None => {
                    &&& !(archetypes@[a as int].tags@.contains(t) && old(self).col_present(
                        archetypes@,
                        a as int,
                        t,
                    ))
                    &&& *final(self) == *old(self)
                },
            },
    {
        let arch = &archetypes[a];
        match arch.index_of(t) {
            None => None,
            Some(i) => {
                proof {
                    lemma_slot_of(archetypes@[a as int], t, i as int);
                }
                if self.stores[a][i].data.is_none() {
                    return None;
                }
                let col = &mut self.stores[a][i];
                col.version = col.version + 1;
                let version = col.version;
                let data_opt = col.data.take();
                let data = data_opt.unwrap();
                Some(ComponentSliceMut { tag: t, version, data })
            },
        }
    }

    /// Ends a mutable fetch: puts the rows back into the slot they were
    /// taken from. The version is not touched again — it advanced when the
    /// fetch began.
    pub fn restore_column(&mut self, archetypes: &Vec<Archetype>, a: usize, slice: ComponentSliceMut<T>)
        requires
            old(self).wf(archetypes@),
            a < archetypes@.len(),
            archetypes@[a as int].tags@.contains(slice.tag),
            !old(self).col_present(archetypes@, a as int, slice.tag),
            slice.data@.len() == archetypes@[a as int].entities@.len(),
        ensures
            final(self).wf(archetypes@),
            final(self).col_present(archetypes@, a as int, slice.tag),
            final(self).col_data(archetypes@, a as int, slice.tag) == slice.data@,
            final(self).col_version(archetypes@, a as int, slice.tag) == old(self).col_version(
                archetypes@,
                a as int,
                slice.tag,
            ),
            columns_unchanged_except(*old(self), *final(self), archetypes@, a as int, slice.tag),
    {
        let r = archetypes[a].index_of(slice.tag);
        assert(r is Some);
        let i = r.unwrap();
        proof {
            lemma_slot_of(archetypes@[a as int], slice.tag, i as int);
        }
        let ComponentSliceMut { tag: _, version: _, data } = slice;
        let col = &mut self.stores[a][i];
        col.data = Some(data);
    }

    /// Borrows archetype `a`'s column for component type `t`, together with
    /// the archetype's row order. Yields `None` when the archetype has no
    /// column for `t`, or while a mutable fetch holds that column's rows.
    pub fn get_slice<'a>(
        &'a self,
        archetypes: &'a Vec<Archetype>,
        a: usize,
        t: ComponentTypeId,
    ) -> (r: Option<ComponentSlice<'a, T>>)
        requires
            self.wf(archetypes@),
            a < archetypes@.len(),
        ensures
            match r {
                Some(s) => {
                    &&& archetypes@[a as int].tags@.contains(t)
                    &&& self.col_present(archetypes@, a as int, t)
                    &&& s.tag == t
                    &&& s.version == self.col_version(archetypes@, a as int, t)
                    &&& s.data@ == self.col_data(archetypes@, a as int, t)
                    &&& s.entities@ == archetypes@[a as int].entities@
                    &&& s.data@.len() == s.entities@.len()
                },
                None => !(archetypes@[a as int].tags@.contains(t)
                    && self.col_present(archetypes@, a as int, t)),
            },
    {
        let arch = &archetypes[a];
        match arch.index_of(t) {
            None => None,
            Some(i) => {
                proof {
                    lemma_slot_of(archetypes@[a as int], t, i as int);
                }
                let col = &self.stores[a][i];
                match &col.data {
                    None => None,
                    Some(d) => Some(
                        ComponentSlice {
                            tag: t,
                            version: col.version,
                            data: d,
                            entities: &arch.entities,
                        },
                    ),
                }
            },
        }
    }
}

/// One mutable fetch epoch on archetype `a`'s column for `t`: the column's
/// version advanced by exactly one, as `take_column` ensures. Grouped row
/// accesses within the epoch do not appear here: they leave every version
/// untouched.
pub open spec fn mutable_fetch_step<T>(
    pre: Components<T>,
    post: Components<T>,
    archs: Seq<Archetype>,
    a: int,
    t: ComponentTypeId,
) -> bool {
    post.col_version(archs, a, t) == pre.col_version(archs, a, t) + 1
}

/// Version monotonicity: across any chain of store snapshots linked by
/// mutable fetch epochs of one column — however many rows each epoch
/// touched — the column's version grows by exactly the number of epochs,
/// and after at least one epoch is strictly greater than where it began.
pub proof fn lemma_version_monotonic<T>(
    snaps: Seq<Components<T>>,
    archs: Seq<Archetype>,
    a: int,
    t: ComponentTypeId,
)
    requires
        snaps.len() >= 1,
        forall|k: int|
            0 <= k < snaps.len() - 1 ==> mutable_fetch_step(
                #[trigger] snaps[k],
                snaps[k + 1],
                archs,
                a,
                t,
            ),
    ensures
        snaps.last().col_version(archs, a, t) == snaps.first().col_version(archs, a, t)
            + snaps.len() - 1,
        snaps.len() > 1 ==> snaps.last().col_version(archs, a, t) > snaps.first().col_version(
            archs,
            a,
            t,
        ),
    decreases snaps.len(),
{
    if snaps.len() > 1 {
        let front = snaps.drop_last();
        assert(forall|k: int|
            0 <= k < front.len() - 1 ==> mutable_fetch_step(
                #[trigger] front[k],
                front[k + 1],
                archs,
                a,
                t,
            ));
        lemma_version_monotonic(front, archs, a, t);
        assert(mutable_fetch_step(snaps[snaps.len() - 2], snaps[snaps.len() - 1], archs, a, t));
    }
}

} // verus!
