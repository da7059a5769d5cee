use ecs_query::filter::ChangedFilter;
use ecs_query::filter::EntityFilterTuple;
use ecs_query::filter::QueryResult;
use ecs_query::permissions::ComponentAccess;
use ecs_query::permissions::Permissions;
use ecs_query::storage::Archetype;
use ecs_query::storage::Column;
use ecs_query::storage::ComponentTypeId;
use ecs_query::storage::Components;
use ecs_query::tracked_write::TrackedWrite;
use ecs_query::tracked_write::TrackedWriteFetch;
use ecs_query::view::Read;
use ecs_query::view::ReadPair;
use ecs_query::view::Write;

fn position() -> ComponentTypeId {
    ComponentTypeId(1)
}

fn velocity() -> ComponentTypeId {
    ComponentTypeId(2)
}

fn identity() -> ComponentTypeId {
    ComponentTypeId(3)
}

fn absent() -> ComponentTypeId {
    ComponentTypeId(9)
}

/// One archetype of three entities with a position, a velocity and an
/// identity column equal to the entity ids, as parallel columns.
fn small_world() -> (Vec<Archetype>, Components<u64>) {
    let archetypes: Vec<Archetype> = vec![Archetype {
        tags: vec![position(), velocity(), identity()],
        entities: vec![10, 11, 12],
    }];
    let components: Components<u64> = Components {
        stores: vec![vec![
            Column { tag: position(), version: 0, data: Some(vec![100, 101, 102]) },
            Column { tag: velocity(), version: 0, data: Some(vec![200, 201, 202]) },
            Column { tag: identity(), version: 0, data: Some(vec![10, 11, 12]) },
        ]],
    };
    (archetypes, components)
}

#[test]
fn read_fetch_returns_column() {
    let (archetypes, components) = small_world();
    let view = Read::new(position());
    let query = view.default_filter().find_archetypes(&archetypes);
    let fetched = view.fetch(&components, &archetypes, &query);
    assert_eq!(fetched.len(), 1);
    let slice = fetched[0].as_ref().expect("column is present");
    assert_eq!(slice.len(), 3);
    assert_eq!(*slice.get(0), 100);
    assert_eq!(*slice.get(2), 102);
    assert_eq!(slice.version(), 0);
}

#[test]
fn missing_column_yields_none_not_error() {
    let (archetypes, components) = small_world();
    let view = Read::new(absent());
    let query = QueryResult { indices: vec![0] };
    let fetched = view.fetch(&components, &archetypes, &query);
    assert_eq!(fetched.len(), 1);
    assert!(fetched[0].is_none());
}

#[test]
fn empty_archetype_yields_empty_fetch() {
    let archetypes: Vec<Archetype> = vec![Archetype {
        tags: vec![position()],
        entities: vec![],
    }];
    let components: Components<u64> = Components {
        stores: vec![vec![Column { tag: position(), version: 0, data: Some(vec![]) }]],
    };
    let view = Read::new(position());
    let query = view.default_filter().find_archetypes(&archetypes);
    assert_eq!(query.indices, vec![0]);
    let fetched = view.fetch(&components, &archetypes, &query);
    let slice = fetched[0].as_ref().expect("an empty archetype still binds");
    assert_eq!(slice.len(), 0);
}

#[test]
fn filter_selects_matching_archetypes_in_order() {
    let archetypes: Vec<Archetype> = vec![
        Archetype { tags: vec![position()], entities: vec![1] },
        Archetype { tags: vec![velocity()], entities: vec![2] },
        Archetype { tags: vec![velocity(), position()], entities: vec![3] },
    ];
    let filter = EntityFilterTuple::new(position());
    let query = filter.find_archetypes(&archetypes);
    assert_eq!(query.indices, vec![0, 2]);
    assert!(filter.matches_archetype(&archetypes[2]));
    assert!(!filter.matches_archetype(&archetypes[1]));
}

#[test]
fn alignment_across_pair_of_columns() {
    let (archetypes, components) = small_world();
    let pair = ReadPair::new(position(), identity());
    assert!(pair.validate());
    let slice = pair.fetch_one(&components, &archetypes, 0).expect("both columns present");
    assert_eq!(slice.len(), 3);
    for i in 0..slice.len() {
        let (position, identity) = slice.get(i);
        // The identity column stores each row's entity id, so equal row
        // indices of both columns must name the same entity.
        assert_eq!(*identity, archetypes[0].entities[i]);
        assert_eq!(*position, 100 + *identity - 10);
    }
}

#[test]
fn pair_fetch_none_when_one_column_missing() {
    let (archetypes, components) = small_world();
    let pair = ReadPair::new(position(), absent());
    assert!(pair.fetch_one(&components, &archetypes, 0).is_none());
}

#[test]
fn version_bumps_once_per_mutable_fetch() {
    let (archetypes, mut components) = small_world();
    let slice = components.take_column(&archetypes, 0, position()).expect("present");
    // One bump on acquisition, regardless of how many rows are touched.
    assert_eq!(slice.version(), 1);
    components.restore_column(&archetypes, 0, slice);

    let mut slice = components.take_column(&archetypes, 0, position()).expect("restored");
    assert_eq!(slice.version(), 2);
    // Ten grouped accesses within one fetch: still one bump.
    for i in 0..10 {
        *slice.get_component_mut(i % 3) += 1;
    }
    assert_eq!(slice.version(), 2);
    components.restore_column(&archetypes, 0, slice);

    let slice = components.take_column(&archetypes, 0, position()).expect("restored");
    assert_eq!(slice.version(), 3);
    components.restore_column(&archetypes, 0, slice);
}

#[test]
fn reads_leave_version_untouched() {
    let (archetypes, components) = small_world();
    let view = Read::new(position());
    let query = view.default_filter().find_archetypes(&archetypes);
    let fetched = view.fetch(&components, &archetypes, &query);
    assert_eq!(fetched[0].as_ref().unwrap().version(), 0);
    let fetched_again = view.fetch(&components, &archetypes, &query);
    assert_eq!(fetched_again[0].as_ref().unwrap().version(), 0);
}

#[test]
fn exclusivity_while_column_is_taken() {
    let (archetypes, mut components) = small_world();
    let held = components.take_column(&archetypes, 0, position()).expect("present");
    // A second mutable fetch of the same column is refused while the first
    // window lives, and the version does not advance again.
    assert!(components.take_column(&archetypes, 0, position()).is_none());
    // A shared fetch is refused too.
    assert!(components.get_slice(&archetypes, 0, position()).is_none());
    // Other columns stay fetchable.
    assert!(components.get_slice(&archetypes, 0, velocity()).is_some());
    components.restore_column(&archetypes, 0, held);
    let reacquired = components.take_column(&archetypes, 0, position()).expect("released");
    assert_eq!(reacquired.version(), 2);
    components.restore_column(&archetypes, 0, reacquired);
}

#[test]
fn writes_persist_through_restore() {
    let (archetypes, mut components) = small_world();
    let mut slice = components.take_column(&archetypes, 0, position()).expect("present");
    *slice.get_component_mut(1) = 500;
    components.restore_column(&archetypes, 0, slice);
    let read = components.get_slice(&archetypes, 0, position()).expect("restored");
    assert_eq!(*read.get(1), 500);
    assert_eq!(*read.get(0), 100);
}

#[test]
fn permission_rejection_write_against_read() {
    let requested = Permissions::write_only(position());
    let other_reader = Permissions::read_only(position());
    let other_writer = Permissions::write_only(position());
    assert!(!requested.compatible_with(&other_reader));
    assert!(!requested.compatible_with(&other_writer));
    let unrelated = Permissions::read_only(velocity());
    assert!(requested.compatible_with(&unrelated));
}

#[test]
fn writer_can_read_same_grant() {
    let mut grant = Permissions::new();
    grant.add_write(position());
    let access = ComponentAccess::new(grant);
    // A read request for a type held as a write succeeds...
    assert!(Read::new(position()).validate_access(&access));
    // ...and so does the write itself, but not a read of something else.
    assert!(Write::new(position()).validate_access(&access));
    assert!(!Read::new(velocity()).validate_access(&access));
}

#[test]
fn read_grant_does_not_allow_write() {
    let access = ComponentAccess::new(Permissions::read_only(position()));
    assert!(!Write::new(position()).validate_access(&access));
    assert!(Read::new(position()).validate_access(&access));
}

#[test]
fn tracked_write_delegates_permissions() {
    let view = TrackedWrite::new(position());
    assert!(view.validate());
    assert_eq!(view.reads_types(), vec![]);
    assert_eq!(view.writes_types(), vec![position()]);
    assert!(view.reads(position()));
    assert!(view.writes(position()));
    assert!(!view.reads(velocity()));
    assert!(!view.writes(velocity()));
    let req = view.requires_permissions();
    assert_eq!(req.reads, vec![]);
    assert_eq!(req.writes, vec![position()]);
    assert_eq!(view.default_filter().arch.tag, position());

    let write_grant = ComponentAccess::new(Permissions::write_only(position()));
    let read_grant = ComponentAccess::new(Permissions::read_only(position()));
    assert!(view.validate_access(&write_grant));
    assert!(!view.validate_access(&read_grant));
}

#[test]
fn tracked_fetch_surfaces_live_version() {
    let (archetypes, mut components) = small_world();
    let view = TrackedWrite::new(position());
    let query = view.default_filter().find_archetypes(&archetypes);
    let mut iter = view.fetch(&mut components, &archetypes, &query);
    let fetch = iter.next().expect("one archetype").expect("column present");
    // The bound column's version is live: already advanced for this fetch.
    assert_eq!(fetch.version(position()), Some(1));
    // Any other type answers None.
    assert_eq!(fetch.version(velocity()), None);
    assert_eq!(fetch.version(absent()), None);
    assert!(iter.next().is_none());
    // A baseline recorded before the fetch is now older than the live
    // version: the change filter reports "possibly changed".
    let baseline = ChangedFilter { since: 0 };
    assert!(baseline.matches_version(fetch.version(position()).unwrap()));
    let current = ChangedFilter { since: 1 };
    assert!(!current.matches_version(fetch.version(position()).unwrap()));
}

#[test]
fn find_answers_only_the_bound_type() {
    let (archetypes, mut components) = small_world();
    let slice = components.take_column(&archetypes, 0, position()).expect("present");
    let mut fetch = TrackedWriteFetch(slice);
    let found = fetch.find(position()).expect("same type");
    assert_eq!(found.len(), 3);
    assert_eq!(found, &vec![100, 101, 102]);
    assert!(fetch.find(velocity()).is_none());
    assert!(fetch.find(absent()).is_none());
    let found_mut = fetch.find_mut(position()).expect("same type");
    assert_eq!(found_mut.len(), 3);
    found_mut[0] = 7;
    assert!(fetch.find_mut(velocity()).is_none());
    assert_eq!(fetch.into_components(), vec![7, 101, 102]);
}

#[test]
fn split_partitions_rows_in_order() {
    let (archetypes, mut components) = small_world();
    let slice = components.take_column(&archetypes, 0, position()).expect("present");
    let fetch = TrackedWriteFetch(slice);
    assert_eq!(fetch.len(), 3);
    let (left, right) = fetch.split_at(1);
    assert_eq!(left.len(), 1);
    assert_eq!(right.len(), 2);
    assert_eq!(left.version(position()), right.version(position()));
    let mut rows: Vec<u64> = left.into_components();
    rows.extend(right.into_components());
    assert_eq!(rows, vec![100, 101, 102]);
}

#[test]
fn split_at_bounds() {
    let (archetypes, mut components) = small_world();
    let slice = components.take_column(&archetypes, 0, position()).expect("present");
    let (left, right) = TrackedWriteFetch(slice).split_at(0);
    assert_eq!(left.len(), 0);
    assert_eq!(right.len(), 3);
    let (left2, right2) = right.split_at(3);
    assert_eq!(left2.len(), 3);
    assert_eq!(right2.len(), 0);
    assert_eq!(left2.into_components(), vec![100, 101, 102]);
}

#[test]
fn recursive_split_to_leaves_preserves_order() {
    let archetypes: Vec<Archetype> = vec![Archetype {
        tags: vec![position()],
        entities: vec![1, 2, 3, 4],
    }];
    let mut components: Components<u64> = Components {
        stores: vec![vec![Column { tag: position(), version: 0, data: Some(vec![4, 3, 2, 1]) }]],
    };
    let slice = components.take_column(&archetypes, 0, position()).expect("present");
    let (ab, cd) = TrackedWriteFetch(slice).split_at(2);
    let (a, b) = ab.split_at(1);
    let (c, d) = cd.split_at(1);
    let mut rows: Vec<u64> = a.into_components();
    rows.extend(b.into_components());
    rows.extend(c.into_components());
    rows.extend(d.into_components());
    assert_eq!(rows, vec![4, 3, 2, 1]);
}

#[test]
fn indexed_iter_visits_rows_in_order() {
    let (archetypes, mut components) = small_world();
    let view = TrackedWrite::new(position());
    let query = view.default_filter().find_archetypes(&archetypes);
    let mut iter = view.fetch(&mut components, &archetypes, &query);
    let fetch = iter.next().unwrap().unwrap();
    let mut indexed = fetch.into_indexable_iter();
    assert_eq!(indexed.len(), 3);
    let mut seen: Vec<u64> = Vec::new();
    while let Some(row) = indexed.next() {
        seen.push(*row);
        *row += 1000;
    }
    assert_eq!(seen, vec![100, 101, 102]);
    // Mutations through sequential consumption reached the rows.
    assert_eq!(indexed.fetch.into_components(), vec![1100, 1101, 1102]);
}

#[test]
fn indexed_iter_split_halves() {
    let (archetypes, mut components) = small_world();
    let slice = components.take_column(&archetypes, 0, velocity()).expect("present");
    let indexed = TrackedWriteFetch(slice).into_indexable_iter();
    let (mut left, mut right) = indexed.split_at(2);
    assert_eq!(left.len(), 2);
    assert_eq!(right.len(), 1);
    assert_eq!(*left.get(0), 200);
    assert_eq!(*right.get(0), 202);
    assert_eq!(*left.next().unwrap(), 200);
    assert_eq!(*left.next().unwrap(), 201);
    assert!(left.next().is_none());
    assert_eq!(*right.next().unwrap(), 202);
    assert!(right.next().is_none());
}

#[test]
fn tracked_fetch_skips_archetypes_without_column() {
    let archetypes: Vec<Archetype> = vec![
        Archetype { tags: vec![position()], entities: vec![1] },
        Archetype { tags: vec![velocity()], entities: vec![2] },
    ];
    let mut components: Components<u64> = Components {
        stores: vec![
            vec![Column { tag: position(), version: 0, data: Some(vec![50]) }],
            vec![Column { tag: velocity(), version: 0, data: Some(vec![60]) }],
        ],
    };
    let view = TrackedWrite::new(position());
    // A hand-built query that also visits the archetype without the column:
    // the defensive check turns it into a None entry, not an error.
    let query = QueryResult { indices: vec![0, 1] };
    let mut iter = view.fetch(&mut components, &archetypes, &query);
    let first = iter.next().expect("entry for archetype 0");
    assert_eq!(first.unwrap().into_components(), vec![50]);
    let second = iter.next().expect("entry for archetype 1");
    assert!(second.is_none());
    assert!(iter.next().is_none());
    // The unfetched archetype's column is untouched.
    let untouched = components.get_slice(&archetypes, 1, velocity()).expect("present");
    assert_eq!(untouched.version(), 0);
}

#[test]
fn permissions_validator_is_superset() {
    let mut held = Permissions::new();
    held.add_read(position());
    held.add_write(velocity());
    let mut request = Permissions::new();
    request.add_read(position());
    request.add_read(velocity());
    // Both reads covered: position() as a read, velocity() through the write.
    assert!(held.is_superset(&request));
    let mut write_request = Permissions::new();
    write_request.add_write(position());
    // position() is only held as a read: the write is refused.
    assert!(!held.is_superset(&write_request));
    assert!(held.contains_read(position()));
    assert!(!held.contains_write(position()));
    assert!(held.contains_write(velocity()));
}

#[test]
fn tracked_fetch_full_lifecycle() {
    let (archetypes, mut components) = small_world();
    let view = TrackedWrite::new(position());
    let query = view.default_filter().find_archetypes(&archetypes);

    let mut iter = view.fetch(&mut components, &archetypes, &query);
    let fetch = iter.next().expect("one archetype").expect("column present");
    assert_eq!(fetch.version(position()), Some(1));

    // While the fetch lives, the column's rows are out of the store.
    assert!(components.get_slice(&archetypes, 0, position()).is_none());

    let mut indexed = fetch.into_indexable_iter();
    while let Some(row) = indexed.next() {
        *row *= 2;
    }
    components.restore_column(&archetypes, 0, indexed.fetch.0);

    let read = components.get_slice(&archetypes, 0, position()).expect("restored");
    assert_eq!(read.version(), 1);
    assert_eq!(*read.get(0), 200);
    assert_eq!(*read.get(1), 202);
    assert_eq!(*read.get(2), 204);
    drop(read);

    // A new fetch is a new epoch: the version advances again.
    let mut iter = view.fetch(&mut components, &archetypes, &query);
    let fetch = iter.next().unwrap().unwrap();
    assert_eq!(fetch.version(position()), Some(2));
}

#[test]
fn pair_fetch_over_query() {
    let archetypes: Vec<Archetype> = vec![
        Archetype { tags: vec![position(), identity()], entities: vec![1, 2] },
        Archetype { tags: vec![position()], entities: vec![3] },
    ];
    let components: Components<u64> = Components {
        stores: vec![
            vec![
                Column { tag: position(), version: 0, data: Some(vec![21, 22]) },
                Column { tag: identity(), version: 0, data: Some(vec![1, 2]) },
            ],
            vec![Column { tag: position(), version: 0, data: Some(vec![23]) }],
        ],
    };
    let pair = ReadPair::new(position(), identity());
    let query = QueryResult { indices: vec![0, 1] };
    let fetched = pair.fetch(&components, &archetypes, &query);
    assert_eq!(fetched.len(), 2);
    let bound = fetched[0].as_ref().expect("both columns present");
    assert_eq!(bound.len(), 2);
    assert_eq!(bound.get(1), (&22, &2));
    // The second archetype lacks the identity column: defensively skipped.
    assert!(fetched[1].is_none());
}
