//! The change collector: scans the local store for pending tombstones and
//! dirty rows and produces the outbound batch of wire records. The scan is
//! a value snapshot; it does not hold the store beyond the call.
//!
//! A tombstone (soft-deleted, unacknowledged row) is emitted as a deleted
//! record carrying only its row id and revision. A dirty, non-deleted row
//! is emitted with its encoded payload. A collection that was shared to
//! this device by another owner is excluded from the push: pushing another
//! owner's root object would violate the authority's integrity rules.

use vstd::prelude::*;

use crate::codec::{encode_collection, encode_vocabulary, spec_encode_collection, spec_encode_vocabulary};
use crate::json::{obj_new, JsonV};
use crate::record::{RecordV, SyncRecord};
use crate::store::{CollectionRowV, GenericRowV, LocalStore, StoreV, VocabularyRowV};
use crate::tables::{spec_wire_name, wire_name};
use crate::util::{lemma_filter_push, lemma_map_values_push};

verus! {

broadcast use vstd::std_specs::vec::group_vec_axioms;

/// A deleted record: only the row id and the revision travel.
pub open spec fn spec_tomb_record(table: Seq<char>, id: Seq<char>, version: i64) -> RecordV {
    RecordV { table_name: table, row_id: id, version: version, deleted: true, data: JsonV::Obj(Seq::empty()) }
}

/// A collection row awaiting acknowledgement of its delete.
pub open spec fn col_is_tombstone(c: CollectionRowV) -> bool {
    c.meta.deleted && c.meta.synced_at is None
}

/// A collection row with unacknowledged local changes that this device
/// may push: not deleted, dirty, and not shared by another owner.
pub open spec fn col_is_pushable_dirty(c: CollectionRowV) -> bool {
    !c.meta.deleted && c.meta.synced_at is None && c.shared_by is None
}

pub open spec fn vocab_is_tombstone(v: VocabularyRowV) -> bool {
    v.meta.deleted && v.meta.synced_at is None
}

pub open spec fn vocab_is_dirty(v: VocabularyRowV) -> bool {
    !v.meta.deleted && v.meta.synced_at is None
}

pub open spec fn row_is_tombstone(g: GenericRowV) -> bool {
    g.meta.deleted && g.meta.synced_at is None
}

pub open spec fn row_is_dirty(g: GenericRowV) -> bool {
    !g.meta.deleted && g.meta.synced_at is None
}

/// The outbound batch: first the pending tombstones of every synced table,
/// then the dirty rows of every synced table, each encoded by the record
/// codec, with the rows of each table in storage order.
pub open spec fn spec_collect(s: StoreV, user: Option<Seq<char>>) -> Seq<RecordV> {
    s.collections.filter(|c: CollectionRowV| col_is_tombstone(c)).map_values(
        |c: CollectionRowV| spec_tomb_record("collections"@, c.id, c.meta.sync_version),
    ) + s.vocabularies.filter(|v: VocabularyRowV| vocab_is_tombstone(v)).map_values(
        |v: VocabularyRowV| spec_tomb_record("vocabularies"@, v.id, v.meta.sync_version),
    ) + s.rows.filter(|g: GenericRowV| row_is_tombstone(g)).map_values(
        |g: GenericRowV| spec_tomb_record(spec_wire_name(g.table), g.id, g.meta.sync_version),
    ) + s.collections.filter(|c: CollectionRowV| col_is_pushable_dirty(c)).map_values(
        |c: CollectionRowV| RecordV {
            table_name: "collections"@,
            row_id: c.id,
            version: c.meta.sync_version,
            deleted: false,
            data: spec_encode_collection(c, user),
        },
    ) + s.vocabularies.filter(|v: VocabularyRowV| vocab_is_dirty(v)).map_values(
        |v: VocabularyRowV| RecordV {
            table_name: "vocabularies"@,
            row_id: v.id,
            version: v.meta.sync_version,
            deleted: false,
            data: spec_encode_vocabulary(v),
        },
    ) + s.rows.filter(|g: GenericRowV| row_is_dirty(g)).map_values(
        |g: GenericRowV| RecordV {
            table_name: spec_wire_name(g.table),
            row_id: g.id,
            version: g.meta.sync_version,
            deleted: false,
            data: g.data,
        },
    )
}

/// Collect the local changes not yet acknowledged by the authority.
pub fn collect_local_changes(store: &LocalStore, current_user_id: Option<&str>) -> (r: Vec<
    SyncRecord,
>)
    ensures
        r.deep_view() == spec_collect(store@, current_user_id.deep_view()),
{
    let ghost s = store@;
    let ghost user = current_user_id.deep_view();
    let mut records: Vec<SyncRecord> = Vec::new();

    // Pending collection tombstones.
    let ghost base0 = records.deep_view();
    let mut i: usize = 0;
    while i < store.collections.len()
        invariant
            i <= store.collections@.len(),
            s == store@,
            s.collections.len() == store.collections@.len(),
            records.deep_view() =~= s.collections.take(i as int).filter(
                |c: CollectionRowV| col_is_tombstone(c),
            ).map_values(|c: CollectionRowV| spec_tomb_record("collections"@, c.id, c.meta.sync_version)),
        decreases store.collections@.len() - i,
    {
        proof {
            assert(s.collections.take(i + 1) =~= s.collections.take(i as int).push(
                s.collections[i as int],
            ));
            lemma_filter_push(
                s.collections.take(i as int),
                |c: CollectionRowV| col_is_tombstone(c),
                s.collections[i as int],
            );
            lemma_map_values_push(
                s.collections.take(i as int).filter(|c: CollectionRowV| col_is_tombstone(c)),
                |c: CollectionRowV| spec_tomb_record("collections"@, c.id, c.meta.sync_version),
                s.collections[i as int],
            );
        }
        let c = &store.collections[i];
        if c.meta.deleted && c.meta.synced_at.is_none() {
            let ghost prev = records.deep_view();
            records.push(
                SyncRecord {
                    table_name: "collections".to_owned(),
                    row_id: c.id.clone(),
                    version: c.meta.sync_version,
                    deleted: true,
                    data: obj_new(),
                },
            );
            proof {
                assert(records@.len() == prev.len() + 1);
                assert(records.deep_view()[prev.len() as int] == spec_tomb_record(
                    "collections"@,
                    s.collections[i as int].id,
                    s.collections[i as int].meta.sync_version,
                ));
                assert(forall|j: int|
                    0 <= j < prev.len() ==> #[trigger] records.deep_view()[j] == prev[j]);
            }
        }
        i += 1;
    }
    proof {
        assert(s.collections.take(s.collections.len() as int) =~= s.collections);
    }

    // Pending vocabulary tombstones.
    let ghost done1 = records.deep_view();
    let mut i: usize = 0;
    while i < store.vocabularies.len()
        invariant
            i <= store.vocabularies@.len(),
            s == store@,
            s.vocabularies.len() == store.vocabularies@.len(),
            records.deep_view() =~= done1 + s.vocabularies.take(i as int).filter(
                |v: VocabularyRowV| vocab_is_tombstone(v),
            ).map_values(
                |v: VocabularyRowV| spec_tomb_record("vocabularies"@, v.id, v.meta.sync_version),
            ),
        decreases store.vocabularies@.len() - i,
    {
        proof {
            assert(s.vocabularies.take(i + 1) =~= s.vocabularies.take(i as int).push(
                s.vocabularies[i as int],
            ));
            lemma_filter_push(
                s.vocabularies.take(i as int),
                |v: VocabularyRowV| vocab_is_tombstone(v),
                s.vocabularies[i as int],
            );
            lemma_map_values_push(
                s.vocabularies.take(i as int).filter(|v: VocabularyRowV| vocab_is_tombstone(v)),
                |v: VocabularyRowV| spec_tomb_record("vocabularies"@, v.id, v.meta.sync_version),
                s.vocabularies[i as int],
            );
        }
        let v = &store.vocabularies[i];
        if v.meta.deleted && v.meta.synced_at.is_none() {
            let ghost prev = records.deep_view();
            records.push(
                SyncRecord {
                    table_name: "vocabularies".to_owned(),
                    row_id: v.id.clone(),
                    version: v.meta.sync_version,
                    deleted: true,
                    data: obj_new(),
                },
            );
            proof {
                assert(records@.len() == prev.len() + 1);
                assert(records.deep_view()[prev.len() as int] == spec_tomb_record(
                    "vocabularies"@,
                    s.vocabularies[i as int].id,
                    s.vocabularies[i as int].meta.sync_version,
                ));
                assert(forall|j: int|
                    0 <= j < prev.len() ==> #[trigger] records.deep_view()[j] == prev[j]);
            }
        }
        i += 1;
    }
    proof {
        assert(s.vocabularies.take(s.vocabularies.len() as int) =~= s.vocabularies);
    }

    // Pending tombstones of the generic tables.
    let ghost done2 = records.deep_view();
    let mut i: usize = 0;
    while i < store.rows.len()
        invariant
            i <= store.rows@.len(),
            s == store@,
            s.rows.len() == store.rows@.len(),
            records.deep_view() =~= done2 + s.rows.take(i as int).filter(
                |g: GenericRowV| row_is_tombstone(g),
            ).map_values(
                |g: GenericRowV| spec_tomb_record(spec_wire_name(g.table), g.id, g.meta.sync_version),
            ),
        decreases store.rows@.len() - i,
    {
        proof {
            assert(s.rows.take(i + 1) =~= s.rows.take(i as int).push(s.rows[i as int]));
            lemma_filter_push(
                s.rows.take(i as int),
                |g: GenericRowV| row_is_tombstone(g),
                s.rows[i as int],
            );
            lemma_map_values_push(
                s.rows.take(i as int).filter(|g: GenericRowV| row_is_tombstone(g)),
                |g: GenericRowV| spec_tomb_record(spec_wire_name(g.table), g.id, g.meta.sync_version),
                s.rows[i as int],
            );
        }
        let g = &store.rows[i];
        if g.meta.deleted && g.meta.synced_at.is_none() {
            let ghost prev = records.deep_view();
            records.push(
                SyncRecord {
                    table_name: wire_name(g.table).to_owned(),
                    row_id: g.id.clone(),
                    version: g.meta.sync_version,
                    deleted: true,
                    data: obj_new(),
                },
            );
            proof {
                assert(records@.len() == prev.len() + 1);
                assert(records.deep_view()[prev.len() as int] == spec_tomb_record(
                    spec_wire_name(s.rows[i as int].table),
                    s.rows[i as int].id,
                    s.rows[i as int].meta.sync_version,
                ));
                assert(forall|j: int|
                    0 <= j < prev.len() ==> #[trigger] records.deep_view()[j] == prev[j]);
            }
        }
        i += 1;
    }
    proof {
        assert(s.rows.take(s.rows.len() as int) =~= s.rows);
    }

    // Dirty collections, excluding those shared by another owner.
    let ghost done3 = records.deep_view();
    let mut i: usize = 0;
    while i < store.collections.len()
        invariant
            i <= store.collections@.len(),
            s == store@,
            user == current_user_id.deep_view(),
            s.collections.len() == store.collections@.len(),
            records.deep_view() =~= done3 + s.collections.take(i as int).filter(
                |c: CollectionRowV| col_is_pushable_dirty(c),
            ).map_values(
                |c: CollectionRowV| RecordV {
                    table_name: "collections"@,
                    row_id: c.id,
                    version: c.meta.sync_version,
                    deleted: false,
                    data: spec_encode_collection(c, user),
                },
            ),
        decreases store.collections@.len() - i,
    {
        proof {
            assert(s.collections.take(i + 1) =~= s.collections.take(i as int).push(
                s.collections[i as int],
            ));
            lemma_filter_push(
                s.collections.take(i as int),
                |c: CollectionRowV| col_is_pushable_dirty(c),
                s.collections[i as int],
            );
            lemma_map_values_push(
                s.collections.take(i as int).filter(|c: CollectionRowV| col_is_pushable_dirty(c)),
                |c: CollectionRowV| RecordV {
                    table_name: "collections"@,
                    row_id: c.id,
                    version: c.meta.sync_version,
                    deleted: false,
                    data: spec_encode_collection(c, user),
                },
                s.collections[i as int],
            );
        }
        let c = &store.collections[i];
        if !c.meta.deleted && c.meta.synced_at.is_none() && c.shared_by.is_none() {
            let ghost prev = records.deep_view();
            let data = encode_collection(c, current_user_id);
            records.push(
                SyncRecord {
                    table_name: "collections".to_owned(),
                    row_id: c.id.clone(),
                    version: c.meta.sync_version,
                    deleted: false,
                    data,
                },
            );
            proof {
                assert(records@.len() == prev.len() + 1);
                assert(records.deep_view()[prev.len() as int] == (RecordV {
                    table_name: "collections"@,
                    row_id: s.collections[i as int].id,
                    version: s.collections[i as int].meta.sync_version,
                    deleted: false,
                    data: spec_encode_collection(s.collections[i as int], user),
                }));
                assert(forall|j: int|
                    0 <= j < prev.len() ==> #[trigger] records.deep_view()[j] == prev[j]);
            }
        }
        i += 1;
    }
    proof {
        assert(s.collections.take(s.collections.len() as int) =~= s.collections);
    }

    // Dirty vocabularies.
    let ghost done4 = records.deep_view();
    let mut i: usize = 0;
    while i < store.vocabularies.len()
        invariant
            i <= store.vocabularies@.len(),
            s == store@,
            s.vocabularies.len() == store.vocabularies@.len(),
            records.deep_view() =~= done4 + s.vocabularies.take(i as int).filter(
                |v: VocabularyRowV| vocab_is_dirty(v),
            ).map_values(
                |v: VocabularyRowV| RecordV {
                    table_name: "vocabularies"@,
                    row_id: v.id,
                    version: v.meta.sync_version,
                    deleted: false,
                    data: spec_encode_vocabulary(v),
                },
            ),
        decreases store.vocabularies@.len() - i,
    {
        proof {
            assert(s.vocabularies.take(i + 1) =~= s.vocabularies.take(i as int).push(
                s.vocabularies[i as int],
            ));
            lemma_filter_push(
                s.vocabularies.take(i as int),
                |v: VocabularyRowV| vocab_is_dirty(v),
                s.vocabularies[i as int],
            );
            lemma_map_values_push(
                s.vocabularies.take(i as int).filter(|v: VocabularyRowV| vocab_is_dirty(v)),
                |v: VocabularyRowV| RecordV {
                    table_name: "vocabularies"@,
                    row_id: v.id,
                    version: v.meta.sync_version,
                    deleted: false,
                    data: spec_encode_vocabulary(v),
                },
                s.vocabularies[i as int],
            );
        }
        let v = &store.vocabularies[i];
        if !v.meta.deleted && v.meta.synced_at.is_none() {
            let ghost prev = records.deep_view();
            let data = encode_vocabulary(v);
            records.push(
                SyncRecord {
                    table_name: "vocabularies".to_owned(),
                    row_id: v.id.clone(),
                    version: v.meta.sync_version,
                    deleted: false,
                    data,
                },
            );
            proof {
                assert(records@.len() == prev.len() + 1);
                assert(records.deep_view()[prev.len() as int] == (RecordV {
                    table_name: "vocabularies"@,
                    row_id: s.vocabularies[i as int].id,
                    version: s.vocabularies[i as int].meta.sync_version,
                    deleted: false,
                    data: spec_encode_vocabulary(s.vocabularies[i as int]),
                }));
                assert(forall|j: int|
                    0 <= j < prev.len() ==> #[trigger] records.deep_view()[j] == prev[j]);
            }
        }
        i += 1;
    }
    proof {
        assert(s.vocabularies.take(s.vocabularies.len() as int) =~= s.vocabularies);
    }

    // Dirty rows of the generic tables, with their stored payloads.
    let ghost done5 = records.deep_view();
    let mut i: usize = 0;
    while i < store.rows.len()
        invariant
            i <= store.rows@.len(),
            s == store@,
            s.rows.len() == store.rows@.len(),
            records.deep_view() =~= done5 + s.rows.take(i as int).filter(
                |g: GenericRowV| row_is_dirty(g),
            ).map_values(
                |g: GenericRowV| RecordV {
                    table_name: spec_wire_name(g.table),
                    row_id: g.id,
                    version: g.meta.sync_version,
                    deleted: false,
                    data: g.data,
                },
            ),
        decreases store.rows@.len() - i,
    {
        proof {
            assert(s.rows.take(i + 1) =~= s.rows.take(i as int).push(s.rows[i as int]));
            lemma_filter_push(
                s.rows.take(i as int),
                |g: GenericRowV| row_is_dirty(g),
                s.rows[i as int],
            );
            lemma_map_values_push(
                s.rows.take(i as int).filter(|g: GenericRowV| row_is_dirty(g)),
                |g: GenericRowV| RecordV {
                    table_name: spec_wire_name(g.table),
                    row_id: g.id,
                    version: g.meta.sync_version,
                    deleted: false,
                    data: g.data,
                },
                s.rows[i as int],
            );
        }
        let g = &store.rows[i];
        if !g.meta.deleted && g.meta.synced_at.is_none() {
            let ghost prev = records.deep_view();
            let data = g.data.duplicate();
            records.push(
                SyncRecord {
                    table_name: wire_name(g.table).to_owned(),
                    row_id: g.id.clone(),
                    version: g.meta.sync_version,
                    deleted: false,
                    data,
                },
            );
            proof {
                assert(records@.len() == prev.len() + 1);
                assert(records.deep_view()[prev.len() as int] == (RecordV {
                    table_name: spec_wire_name(s.rows[i as int].table),
                    row_id: s.rows[i as int].id,
                    version: s.rows[i as int].meta.sync_version,
                    deleted: false,
                    data: s.rows[i as int].data,
                }));
                assert(forall|j: int|
                    0 <= j < prev.len() ==> #[trigger] records.deep_view()[j] == prev[j]);
            }
        }
        i += 1;
    }
    proof {
        assert(s.rows.take(s.rows.len() as int) =~= s.rows);
        assert(records.deep_view() =~= spec_collect(s, user));
    }
    records
}

} // verus!
