//! Access permissions: the read/write type-set contract a view requires or a
//! caller-held grant provides, and the validator that checks one against the
//! other before any fetch begins.
//!
//! The rule is the classic exclusive-writer/shared-reader discipline. A held
//! grant satisfies a request when every requested read is covered by the
//! grant's reads or writes (a writer may also read) and every requested
//! write is covered by its writes. Two independently held grants are
//! compatible when neither writes a type the other reads or writes. Both
//! checks run once, when a query is constructed — never per element.

use vstd::prelude::*;

use crate::storage::ComponentTypeId;

verus! {

/// Membership scan used by every permission check.
fn ids_contain(v: &Vec<ComponentTypeId>, t: ComponentTypeId) -> (r: bool)
    ensures
        r == v@.contains(t),
{
    let mut i: usize = 0;
    while i < v.len()
        invariant
            i <= v@.len(),
            forall|j: int| 0 <= j < i ==> v@[j] != t,
        decreases v@.len() - i,
    {
        if v[i] == t {
            return true;
        }
        i = i + 1;
    }
    false
}

/// Appending one id to a list inserts it into the list's set of ids.
proof fn lemma_to_set_push(s: Seq<ComponentTypeId>, t: ComponentTypeId)
    ensures
        s.push(t).to_set() == s.to_set().insert(t),
{
    assert forall|x: ComponentTypeId| s.push(t).contains(x) implies s.contains(x) || x == t by {
        let j = choose|j: int| 0 <= j < s.push(t).len() && s.push(t)[j] == x;
        if j < s.len() {
            assert(s[j] == x);
        }
    }
    assert forall|x: ComponentTypeId| s.contains(x) implies s.push(t).contains(x) by {
        let j = choose|j: int| 0 <= j < s.len() && s[j] == x;
        assert(s.push(t)[j] == x);
    }
    assert(s.push(t)[s.len() as int] == t);
    assert(s.push(t).contains(t));
    assert(s.push(t).to_set() =~= s.to_set().insert(t));
}

/// Two disjoint sets of component types: those an access reads and those it
/// writes. Describes either a request (what a view needs) or a grant (what a
/// caller holds).
pub struct Permissions {
    /// Types accessed read-only.
    pub reads: Vec<ComponentTypeId>,
    /// Types accessed exclusively.
    pub writes: Vec<ComponentTypeId>,
}

impl Permissions {
    /// The types this permission set reads.
    pub open spec fn read_set(&self) -> Set<ComponentTypeId> {
        self.reads@.to_set()
    }

    /// The types this permission set writes.
    pub open spec fn write_set(&self) -> Set<ComponentTypeId> {
        self.writes@.to_set()
    }

    /// Self-consistent: no type is declared both read and written.
    pub open spec fn wf(&self) -> bool {
        self.read_set().disjoint(self.write_set())
    }

    /// A grant with these permissions satisfies a request for `requested`:
    /// every requested read is held as a read or as a write (a writer may
    /// also read), and every requested write is held as a write.
    pub open spec fn sufficient_for(&self, requested: Permissions) -> bool {
        &&& requested.read_set().subset_of(self.read_set().union(self.write_set()))
        &&& requested.write_set().subset_of(self.write_set())
    }

    /// Two independently held grants may coexist: neither writes a type the
    /// other reads or writes.
    pub open spec fn compatible(&self, other: Permissions) -> bool {
        &&& self.write_set().disjoint(other.read_set().union(other.write_set()))
        &&& other.write_set().disjoint(self.read_set())
    }

    /// The empty permission set: reads nothing, writes nothing.
    pub fn new() -> (r: Self)
        ensures
            r.read_set() == Set::<ComponentTypeId>::empty(),
            r.write_set() == Set::<ComponentTypeId>::empty(),
            r.wf(),
    {
        let r = Permissions { reads: Vec::new(), writes: Vec::new() };
        proof {
            assert(r.read_set() =~= Set::<ComponentTypeId>::empty());
            assert(r.write_set() =~= Set::<ComponentTypeId>::empty());
        }
        r
    }

    /// The permission set that only reads `t`.
    pub fn read_only(t: ComponentTypeId) -> (r: Self)
        ensures
            r.read_set() == Set::<ComponentTypeId>::empty().insert(t),
            r.write_set() == Set::<ComponentTypeId>::empty(),
            r.wf(),
    {
        let mut reads: Vec<ComponentTypeId> = Vec::new();
        reads.push(t);
        let r = Permissions { reads, writes: Vec::new() };
        proof {
            lemma_to_set_push(Seq::<ComponentTypeId>::empty(), t);
            assert(Seq::<ComponentTypeId>::empty().to_set() =~= Set::<ComponentTypeId>::empty());
            assert(r.write_set() =~= Set::<ComponentTypeId>::empty());
        }
        r
    }

    /// The permission set that only writes `t`.
    pub fn write_only(t: ComponentTypeId) -> (r: Self)
        ensures
            r.read_set() == Set::<ComponentTypeId>::empty(),
            r.write_set() == Set::<ComponentTypeId>::empty().insert(t),
            r.wf(),
    {
        let mut writes: Vec<ComponentTypeId> = Vec::new();
        writes.push(t);
        let r = Permissions { reads: Vec::new(), writes };
        proof {
            lemma_to_set_push(Seq::<ComponentTypeId>::empty(), t);
            assert(Seq::<ComponentTypeId>::empty().to_set() =~= Set::<ComponentTypeId>::empty());
            assert(r.read_set() =~= Set::<ComponentTypeId>::empty());
        }
        r
    }

    /// Adds a read of `t`; refused (by precondition) when `t` is already
    /// written, which would break disjointness.
    pub fn add_read(&mut self, t: ComponentTypeId)
        requires
            !old(self).write_set().contains(t),
        ensures
            final(self).read_set() == old(self).read_set().insert(t),
            final(self).write_set() == old(self).write_set(),
            old(self).wf() ==> final(self).wf(),
    {
        self.reads.push(t);
        proof {
            lemma_to_set_push(old(self).reads@, t);
        }
    }

    /// Adds a write of `t`; refused (by precondition) when `t` is already
    /// read, which would break disjointness.
    pub fn add_write(&mut self, t: ComponentTypeId)
        requires
            !old(self).read_set().contains(t),
        ensures
            final(self).write_set() == old(self).write_set().insert(t),
            final(self).read_set() == old(self).read_set(),
            old(self).wf() ==> final(self).wf(),
    {
        self.writes.push(t);
        proof {
            lemma_to_set_push(old(self).writes@, t);
        }
    }

    /// Whether `t` is read by this permission set.
    pub fn contains_read(&self, t: ComponentTypeId) -> (r: bool)
        ensures
            r == self.read_set().contains(t),
    {
        ids_contain(&self.reads, t)
    }

    /// Whether `t` is written by this permission set.
    pub fn contains_write(&self, t: ComponentTypeId) -> (r: bool)
        ensures
            r == self.write_set().contains(t),
    {
        ids_contain(&self.writes, t)
    }

    /// The validator's core check: does this held grant satisfy the
    /// `requested` permissions? Runs once per query construction.
    pub fn is_superset(&self, requested: &Permissions) -> (r: bool)
        ensures
            r == self.sufficient_for(*requested),
    {
        let mut i: usize = 0;
        while i < requested.reads.len()
            invariant
                i <= requested.reads@.len(),
                forall|j: int|
                    0 <= j < i ==> self.reads@.contains(#[trigger] requested.reads@[j])
                        || self.writes@.contains(requested.reads@[j]),
            decreases requested.reads@.len() - i,
        {
            let t = requested.reads[i];
            if !ids_contain(&self.reads, t) && !ids_contain(&self.writes, t) {
                proof {
                    assert(requested.read_set().contains(t));
                    assert(!self.read_set().union(self.write_set()).contains(t));
                }
                return false;
            }
            i = i + 1;
        }
        let mut k: usize = 0;
        while k < requested.writes.len()
            invariant
                k <= requested.writes@.len(),
                forall|j: int| 0 <= j < k ==> self.writes@.contains(#[trigger] requested.writes@[j]),
            decreases requested.writes@.len() - k,
        {
            let t = requested.writes[k];
            if !ids_contain(&self.writes, t) {
                proof {
                    assert(requested.write_set().contains(t));
                    assert(!self.write_set().contains(t));
                }
                return false;
            }
            k = k + 1;
        }
        proof {
            assert forall|x: ComponentTypeId| requested.read_set().contains(x) implies self
                .read_set()
                .union(self.write_set())
                .contains(x) by {
                let j = choose|j: int|
                    0 <= j < requested.reads@.len() && requested.reads@[j] == x;
                assert(self.reads@.contains(requested.reads@[j]) || self.writes@.contains(
                    requested.reads@[j],
                ));
            }
            assert forall|x: ComponentTypeId| requested.write_set().contains(x) implies self
                .write_set()
                .contains(x) by {
                let j = choose|j: int|
                    0 <= j < requested.writes@.len() && requested.writes@[j] == x;
                assert(self.writes@.contains(requested.writes@[j]));
            }
        }
        true
    }

    /// Whether this grant and another held grant may live at the same time:
    /// neither may write a type the other reads or writes.
    pub fn compatible_with(&self, other: &Permissions) -> (r: bool)
        ensures
            r == self.compatible(*other),
    {
        let mut i: usize = 0;
        while i < self.writes.len()
            invariant
                i <= self.writes@.len(),
                forall|j: int|
                    0 <= j < i ==> !other.reads@.contains(#[trigger] self.writes@[j])
                        && !other.writes@.contains(self.writes@[j]),
            decreases self.writes@.len() - i,
        {
            let t = self.writes[i];
            if ids_contain(&other.reads, t) || ids_contain(&other.writes, t) {
                proof {
                    assert(self.write_set().contains(t));
                    assert(other.read_set().union(other.write_set()).contains(t));
                }
                return false;
            }
            i = i + 1;
        }
        let mut k: usize = 0;
        while k < other.writes.len()
            invariant
                k <= other.writes@.len(),
                forall|j: int| 0 <= j < k ==> !self.reads@.contains(#[trigger] other.writes@[j]),
            decreases other.writes@.len() - k,
        {
            let t = other.writes[k];
            if ids_contain(&self.reads, t) {
                proof {
                    assert(other.write_set().contains(t));
                    assert(self.read_set().contains(t));
                }
                return false;
            }
            k = k + 1;
        }
        proof {
            assert forall|x: ComponentTypeId| self.write_set().contains(x) implies !other
                .read_set()
                .union(other.write_set())
                .contains(x) by {
                let j = choose|j: int| 0 <= j < self.writes@.len() && self.writes@[j] == x;
                assert(!other.reads@.contains(self.writes@[j]) && !other.writes@.contains(
                    self.writes@[j],
                ));
            }
            assert forall|x: ComponentTypeId| other.write_set().contains(x) implies !self
                .read_set()
                .contains(x) by {
                let j = choose|j: int| 0 <= j < other.writes@.len() && other.writes@[j] == x;
                assert(!self.reads@.contains(other.writes@[j]));
            }
        }
        true
    }
}

/// Permission rejection: a request that writes `t` is incompatible with any
/// other live grant that reads or writes `t`.
pub proof fn lemma_write_conflict_rejected(
    requested: Permissions,
    other: Permissions,
    t: ComponentTypeId,
)
    requires
        requested.write_set().contains(t),
        other.read_set().contains(t) || other.write_set().contains(t),
    ensures
        !requested.compatible(other),
{
    assert(other.read_set().union(other.write_set()).contains(t));
}

/// Writer-can-read: a grant whose writes cover every requested read (and
/// every requested write) satisfies the request — holding `Write` of a type
/// is enough to read it.
pub proof fn lemma_writer_can_read(held: Permissions, requested: Permissions)
    requires
        forall|t: ComponentTypeId|
            requested.read_set().contains(t) ==> held.write_set().contains(t),
        requested.write_set().subset_of(held.write_set()),
    ensures
        held.sufficient_for(requested),
{
    assert forall|t: ComponentTypeId| requested.read_set().contains(t) implies held
        .read_set()
        .union(held.write_set())
        .contains(t) by {
        assert(held.write_set().contains(t));
    }
}

/// The access-rights token a caller holds against one subworld: the grant a
/// view's declared permissions are validated against before any fetch.
pub struct ComponentAccess {
    /// What the holder of this token may touch.
    pub grant: Permissions,
}

impl ComponentAccess {
    /// Wraps a grant as an access token.
    pub fn new(grant: Permissions) -> (r: Self)
        ensures
            r.grant == grant,
    {
        ComponentAccess { grant }
    }

    /// Whether the held grant satisfies the `requested` permissions.
    /// Insufficiency is an answer, not an error: the caller decides how to
    /// surface it.
    pub fn allows(&self, requested: &Permissions) -> (r: bool)
        ensures
            r == self.grant.sufficient_for(*requested),
    {
        self.grant.is_superset(requested)
    }
}

} // verus!
