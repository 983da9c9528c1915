//! The engine's global guarantees, stated and proved over the apply
//! engine's specification: replaying a pull response is idempotent,
//! deletes are dependency-safe, the denormalized aggregates are
//! consistent after every apply, the apply order respects the dependency
//! rank while the delivered order within a rank does not matter, the
//! collected batch covers every dirty row and ships bare tombstones, and
//! a confirmed push stamps every acknowledged row and purges every
//! acknowledged tombstone.

use vstd::prelude::*;

use crate::apply::{spec_buckets_upto, spec_mark_one, spec_mark_synced, 
    spec_apply_collection_upsert, spec_apply_delete_one, spec_apply_generic_upsert,
    spec_apply_records, spec_apply_upsert_one, spec_apply_vocab_upsert, spec_fold_deletes,
    spec_fold_upserts, spec_ordered, spec_rank_bucket, spec_rank_of, spec_refresh_counts,
};
use crate::codec::{spec_collection_inserted, spec_collection_updated, spec_vocab_inserted, spec_vocab_updated};
use crate::json::{spec_str_or, JsonV};
use crate::collect::{col_is_pushable_dirty, col_is_tombstone, row_is_dirty, row_is_tombstone, spec_collect, spec_tomb_record, vocab_is_dirty, vocab_is_tombstone};
use crate::codec::{spec_encode_collection, spec_encode_vocabulary};
use crate::record::RecordV;
use crate::schema::spec_normalize_table;
use crate::store::{
    col_has, row_has, spec_live_vocab_count, vocab_has, CollectionRowV, GenericRowV, StoreV,
    SyncMeta, VocabularyRowV,
};
use crate::tables::{spec_from_wire, TableKind};
use crate::util::{lemma_filter_all, lemma_filter_elems};

verus! {

/// The table kind a record addresses, when its table name is known.
pub open spec fn rec_kind(r: RecordV) -> Option<TableKind> {
    spec_from_wire(r.table_name)
}

/// Two records of known tables address the same row id.
pub open spec fn same_key(a: RecordV, b: RecordV) -> bool {
    rec_kind(a) is Some && rec_kind(b) is Some && a.row_id == b.row_id
}

/// No two records of the batch address the same row id. Row ids are
/// generated globally unique and never reused, which is what makes the
/// idempotent re-delivery of a pull response safe: a response carries at
/// most one record per row.
pub open spec fn distinct_keys(records: Seq<RecordV>) -> bool {
    forall|i: int, j: int|
        0 <= i < j < records.len() ==> !same_key(#[trigger] records[i], #[trigger] records[j])
}

// ---------------------------------------------------------------------------
// Aggregate consistency.
// ---------------------------------------------------------------------------

/// After an apply, every collection's denormalized word count equals the
/// number of live vocabularies that reference it. In particular, when a
/// remote update moves a vocabulary from one collection to another, both
/// counts reflect the move.
pub proof fn lemma_aggregate_consistency(
    s: StoreV,
    records: Seq<RecordV>,
    user: Option<Seq<char>>,
    now: i64,
)
    ensures
        ({
            let r = spec_apply_records(s, records, user, now);
            forall|i: int|
                0 <= i < r.collections.len() ==> (#[trigger] r.collections[i]).word_count
                    == spec_live_vocab_count(r.vocabularies, r.collections[i].id) as i64
        }),
{
    let s2 = spec_fold_deletes(
        spec_fold_upserts(s, spec_ordered(records, false), user, now),
        spec_ordered(records, true),
    );
    let r = spec_refresh_counts(s2);
    assert(r.vocabularies == s2.vocabularies);
    assert forall|i: int|
        0 <= i < r.collections.len() implies (#[trigger] r.collections[i]).word_count
        == spec_live_vocab_count(r.vocabularies, r.collections[i].id) as i64 by {
        assert(r.collections[i] == (CollectionRowV {
            word_count: spec_live_vocab_count(s2.vocabularies, s2.collections[i].id) as i64,
            ..s2.collections[i]
        }));
    }
}

/// Recomputing the counts twice is the same as recomputing them once.
pub proof fn lemma_refresh_idempotent(s: StoreV)
    ensures
        spec_refresh_counts(spec_refresh_counts(s)) == spec_refresh_counts(s),
{
    let r1 = spec_refresh_counts(s);
    let r2 = spec_refresh_counts(r1);
    assert(r1.vocabularies == s.vocabularies);
    assert forall|i: int| 0 <= i < r2.collections.len() implies #[trigger] r2.collections[i]
        == r1.collections[i] by {
        assert(r1.collections[i] == (CollectionRowV {
            word_count: spec_live_vocab_count(s.vocabularies, s.collections[i].id) as i64,
            ..s.collections[i]
        }));
    }
    assert(r2.collections =~= r1.collections);
    assert(r2 =~= r1);
}

// ---------------------------------------------------------------------------
// A state that already carries a record's outcome.
// ---------------------------------------------------------------------------

/// The store already reflects a non-deleted record: its row exists, and
/// overwriting it with the record again would change nothing.
pub open spec fn reflects(s: StoreV, r: RecordV, user: Option<Seq<char>>, now: i64) -> bool {
    match rec_kind(r) {
        Some(TableKind::Collections) => col_has(s.collections, r.row_id) && (forall|i: int|
            0 <= i < s.collections.len() && (#[trigger] s.collections[i]).id == r.row_id
                ==> spec_collection_updated(s.collections[i], r.data, user, r.version, now)
                == s.collections[i]),
        Some(TableKind::Vocabularies) => vocab_has(s.vocabularies, r.row_id) && (forall|i: int|
            0 <= i < s.vocabularies.len() && (#[trigger] s.vocabularies[i]).id == r.row_id
                ==> spec_vocab_updated(s.vocabularies[i], r.data, r.version, now)
                == s.vocabularies[i]),
        Some(k) => row_has(s.rows, k, r.row_id) && (forall|i: int|
            0 <= i < s.rows.len() && (#[trigger] s.rows[i]).table == k && s.rows[i].id == r.row_id
                ==> (GenericRowV {
                data: spec_normalize_table(k, r.data, now),
                meta: SyncMeta {
                    sync_version: r.version,
                    synced_at: Some(now),
                    ..s.rows[i].meta
                },
                ..s.rows[i]
            }) == s.rows[i]),
        None => true,
    }
}

/// The store carries no row a deleted record addresses.
pub open spec fn absent(s: StoreV, r: RecordV) -> bool {
    match rec_kind(r) {
        Some(TableKind::Collections) => !col_has(s.collections, r.row_id),
        Some(TableKind::Vocabularies) => !vocab_has(s.vocabularies, r.row_id),
        Some(k) => !row_has(s.rows, k, r.row_id),
        None => true,
    }
}

/// Upserting a record the store already reflects changes nothing.
pub proof fn lemma_upsert_noop(s: StoreV, r: RecordV, user: Option<Seq<char>>, now: i64)
    requires
        reflects(s, r, user, now),
    ensures
        spec_apply_upsert_one(s, r, user, now) == s,
{
    match rec_kind(r) {
        Some(TableKind::Collections) => {
            assert(spec_apply_collection_upsert(s, r, user, now).collections =~= s.collections);
            assert(spec_apply_collection_upsert(s, r, user, now) =~= s);
        },
        Some(TableKind::Vocabularies) => {
            assert(spec_apply_vocab_upsert(s, r, now).vocabularies =~= s.vocabularies);
            assert(spec_apply_vocab_upsert(s, r, now) =~= s);
        },
        Some(k) => {
            assert(spec_apply_generic_upsert(s, k, r, now).rows =~= s.rows);
            assert(spec_apply_generic_upsert(s, k, r, now) =~= s);
        },
        None => {},
    }
}

/// Deleting a record whose row is already gone changes nothing.
pub proof fn lemma_delete_noop(s: StoreV, r: RecordV)
    requires
        absent(s, r),
    ensures
        spec_apply_delete_one(s, r) == s,
{
    match rec_kind(r) {
        Some(TableKind::Collections) => {
            lemma_filter_all(s.collections, |c: CollectionRowV| c.id != r.row_id);
            assert(spec_apply_delete_one(s, r) =~= s);
        },
        Some(TableKind::Vocabularies) => {
            lemma_filter_all(s.vocabularies, |v: VocabularyRowV| v.id != r.row_id);
            assert(spec_apply_delete_one(s, r) =~= s);
        },
        Some(k) => {
            lemma_filter_all(s.rows, |g: GenericRowV| !(g.table == k && g.id == r.row_id));
            assert(spec_apply_delete_one(s, r) =~= s);
        },
        None => {},
    }
}

/// One upsert leaves the store reflecting its record.
pub proof fn lemma_upsert_establishes(s: StoreV, r: RecordV, user: Option<Seq<char>>, now: i64)
    ensures
        reflects(spec_apply_upsert_one(s, r, user, now), r, user, now),
{
    let s1 = spec_apply_upsert_one(s, r, user, now);
    match rec_kind(r) {
        Some(TableKind::Collections) => {
            if col_has(s.collections, r.row_id) {
                let i = choose|i: int|
                    0 <= i < s.collections.len() && (#[trigger] s.collections[i]).id == r.row_id;
                assert(s1.collections[i].id == r.row_id);
                assert forall|j: int|
                    0 <= j < s1.collections.len() && (#[trigger] s1.collections[j]).id == r.row_id
                    implies spec_collection_updated(s1.collections[j], r.data, user, r.version, now)
                    == s1.collections[j] by {
                    assert(spec_collection_updated(
                        spec_collection_updated(s.collections[j], r.data, user, r.version, now),
                        r.data,
                        user,
                        r.version,
                        now,
                    ) =~= spec_collection_updated(s.collections[j], r.data, user, r.version, now));
                }
            } else {
                let n = s.collections.len() as int;
                assert(s1.collections[n].id == r.row_id);
                assert forall|j: int|
                    0 <= j < s1.collections.len() && (#[trigger] s1.collections[j]).id == r.row_id
                    implies spec_collection_updated(s1.collections[j], r.data, user, r.version, now)
                    == s1.collections[j] by {
                    assert(j == n);
                    assert(spec_collection_updated(
                        spec_collection_inserted(r.data, r.row_id, user, r.version, now),
                        r.data,
                        user,
                        r.version,
                        now,
                    ) =~= spec_collection_inserted(r.data, r.row_id, user, r.version, now));
                }
            }
        },
        Some(TableKind::Vocabularies) => {
            if vocab_has(s.vocabularies, r.row_id) {
                let i = choose|i: int|
                    0 <= i < s.vocabularies.len() && (#[trigger] s.vocabularies[i]).id == r.row_id;
                assert(s1.vocabularies[i].id == r.row_id);
                assert forall|j: int|
                    0 <= j < s1.vocabularies.len() && (#[trigger] s1.vocabularies[j]).id
                    == r.row_id implies spec_vocab_updated(s1.vocabularies[j], r.data, r.version, now)
                    == s1.vocabularies[j] by {
                    assert(spec_vocab_updated(
                        spec_vocab_updated(s.vocabularies[j], r.data, r.version, now),
                        r.data,
                        r.version,
                        now,
                    ) =~= spec_vocab_updated(s.vocabularies[j], r.data, r.version, now));
                }
            } else {
                let n = s.vocabularies.len() as int;
                assert(s1.vocabularies[n].id == r.row_id);
                assert forall|j: int|
                    0 <= j < s1.vocabularies.len() && (#[trigger] s1.vocabularies[j]).id
                    == r.row_id implies spec_vocab_updated(s1.vocabularies[j], r.data, r.version, now)
                    == s1.vocabularies[j] by {
                    assert(j == n);
                    assert(spec_vocab_updated(
                        spec_vocab_inserted(r.data, r.row_id, r.version, now),
                        r.data,
                        r.version,
                        now,
                    ) =~= spec_vocab_inserted(r.data, r.row_id, r.version, now));
                }
            }
        },
        Some(k) => {
            if row_has(s.rows, k, r.row_id) {
                let i = choose|i: int|
                    0 <= i < s.rows.len() && (#[trigger] s.rows[i]).table == k && s.rows[i].id
                        == r.row_id;
                assert(s1.rows[i].table == k && s1.rows[i].id == r.row_id);
                assert forall|j: int|
                    0 <= j < s1.rows.len() && (#[trigger] s1.rows[j]).table == k && s1.rows[j].id
                    == r.row_id implies (GenericRowV {
                    data: spec_normalize_table(k, r.data, now),
                    meta: SyncMeta {
                        sync_version: r.version,
                        synced_at: Some(now),
                        ..s1.rows[j].meta
                    },
                    ..s1.rows[j]
                }) == s1.rows[j] by {
                    assert(s.rows[j].table == k && s.rows[j].id == r.row_id);
                }
            } else {
                let n = s.rows.len() as int;
                assert(s1.rows[n].table == k && s1.rows[n].id == r.row_id);
            }
        },
        None => {},
    }
}

/// One delete leaves the store without its record's row.
pub proof fn lemma_delete_establishes(s: StoreV, r: RecordV)
    ensures
        absent(spec_apply_delete_one(s, r), r),
{
    broadcast use vstd::seq_lib::group_filter_ensures;

    let s1 = spec_apply_delete_one(s, r);
    match rec_kind(r) {
        Some(TableKind::Collections) => {
            assert forall|i: int| 0 <= i < s1.collections.len() implies (
            #[trigger] s1.collections[i]).id != r.row_id by {
                assert(s.collections.filter(|c: CollectionRowV| c.id != r.row_id)[i]
                    == s1.collections[i]);
            }
        },
        Some(TableKind::Vocabularies) => {
            assert forall|i: int| 0 <= i < s1.vocabularies.len() implies (
            #[trigger] s1.vocabularies[i]).id != r.row_id by {
                assert(s.vocabularies.filter(|v: VocabularyRowV| v.id != r.row_id)[i]
                    == s1.vocabularies[i]);
            }
        },
        Some(k) => {
            assert forall|i: int|
                0 <= i < s1.rows.len() implies !((#[trigger] s1.rows[i]).table == k
                && s1.rows[i].id == r.row_id) by {
                assert(s.rows.filter(|g: GenericRowV| !(g.table == k && g.id == r.row_id))[i]
                    == s1.rows[i]);
            }
        },
        None => {},
    }
}

/// An upsert of a record addressing another row preserves the reflection
/// of this one, and its absence likewise.
pub proof fn lemma_upsert_preserves(
    s: StoreV,
    other: RecordV,
    r: RecordV,
    user: Option<Seq<char>>,
    now: i64,
)
    requires
        same_key(other, r) ==> other.row_id != r.row_id,
    ensures
        reflects(s, r, user, now) ==> reflects(
            spec_apply_upsert_one(s, other, user, now),
            r,
            user,
            now,
        ),
        absent(s, r) ==> absent(spec_apply_upsert_one(s, other, user, now), r),
{
    let s1 = spec_apply_upsert_one(s, other, user, now);
    if rec_kind(r) is None {
        return ;
    }
    if rec_kind(other) is None {
        return ;
    }
    // No row carrying r's id is touched: the upsert only writes rows
    // carrying other's id, and the two ids differ.
    assert forall|i: int|
        0 <= i < s1.collections.len() && (#[trigger] s1.collections[i]).id == r.row_id implies i
        < s.collections.len() && s1.collections[i] == s.collections[i] by {
        if rec_kind(other) == Some(TableKind::Collections) && !col_has(s.collections, other.row_id)
            && i == s.collections.len() as int {
            assert(s1.collections[i] == spec_collection_inserted(
                other.data,
                other.row_id,
                user,
                other.version,
                now,
            ));
        }
    }
    assert forall|i: int|
        0 <= i < s1.vocabularies.len() && (#[trigger] s1.vocabularies[i]).id == r.row_id implies i
        < s.vocabularies.len() && s1.vocabularies[i] == s.vocabularies[i] by {
        if rec_kind(other) == Some(TableKind::Vocabularies) && !vocab_has(
            s.vocabularies,
            other.row_id,
        ) && i == s.vocabularies.len() as int {
            assert(s1.vocabularies[i] == spec_vocab_inserted(
                other.data,
                other.row_id,
                other.version,
                now,
            ));
        }
    }
    assert forall|i: int|
        0 <= i < s1.rows.len() && (#[trigger] s1.rows[i]).id == r.row_id implies i < s.rows.len()
        && s1.rows[i] == s.rows[i] by {
        match rec_kind(other) {
            Some(TableKind::Collections) => {},
            Some(TableKind::Vocabularies) => {},
            Some(ko) => {
                if !row_has(s.rows, ko, other.row_id) && i == s.rows.len() as int {
                    assert(s1.rows[i].id == other.row_id);
                }
            },
            None => {},
        }
    }
    if reflects(s, r, user, now) {
        match rec_kind(r) {
            Some(TableKind::Collections) => {
                let w = choose|i: int|
                    0 <= i < s.collections.len() && (#[trigger] s.collections[i]).id == r.row_id;
                assert(s.collections.len() <= s1.collections.len());
                assert(s1.collections[w].id == r.row_id || s1.collections[w] != s.collections[w]);
                if rec_kind(other) == Some(TableKind::Collections) {
                    assert(s1.collections[w] == s.collections[w]);
                } else {
                    assert(s1.collections == s.collections);
                }
                assert(col_has(s1.collections, r.row_id));
            },
            Some(TableKind::Vocabularies) => {
                let w = choose|i: int|
                    0 <= i < s.vocabularies.len() && (#[trigger] s.vocabularies[i]).id == r.row_id;
                if rec_kind(other) == Some(TableKind::Vocabularies) {
                    assert(s1.vocabularies[w] == s.vocabularies[w]);
                } else {
                    assert(s1.vocabularies == s.vocabularies);
                }
                assert(vocab_has(s1.vocabularies, r.row_id));
            },
            Some(kr) => {
                let w = choose|i: int|
                    0 <= i < s.rows.len() && (#[trigger] s.rows[i]).table == kr && s.rows[i].id
                        == r.row_id;
                match rec_kind(other) {
                    Some(TableKind::Collections) => {
                        assert(s1.rows == s.rows);
                    },
                    Some(TableKind::Vocabularies) => {
                        assert(s1.rows == s.rows);
                    },
                    Some(ko) => {
                        if row_has(s.rows, ko, other.row_id) {
                            assert(s1.rows[w] == s.rows[w]);
                        } else {
                            assert(s1.rows[w] == s.rows[w]);
                        }
                    },
                    None => {},
                }
                assert(row_has(s1.rows, kr, r.row_id));
            },
            None => {},
        }
    }
}

/// A delete of a record addressing another row preserves the reflection
/// of this one; a delete preserves any absence.
pub proof fn lemma_delete_preserves(s: StoreV, other: RecordV, r: RecordV, user: Option<Seq<char>>, now: i64)
    requires
        same_key(other, r) ==> other.row_id != r.row_id,
    ensures
        reflects(s, r, user, now) ==> reflects(spec_apply_delete_one(s, other), r, user, now),
    decreases 0int,
{
    broadcast use vstd::seq_lib::group_filter_ensures;

    let s1 = spec_apply_delete_one(s, other);
    if !reflects(s, r, user, now) {
        return ;
    }
    match rec_kind(other) {
        Some(TableKind::Collections) => {
            lemma_filter_elems(s.collections, |c: CollectionRowV| c.id != other.row_id);
            if rec_kind(r) == Some(TableKind::Collections) {
                let w = choose|i: int|
                    0 <= i < s.collections.len() && (#[trigger] s.collections[i]).id == r.row_id;
                assert(s.collections.filter(|c: CollectionRowV| c.id != other.row_id).contains(
                    s.collections[w],
                ));
                assert(col_has(s1.collections, r.row_id));
                assert forall|i: int|
                    0 <= i < s1.collections.len() && (#[trigger] s1.collections[i]).id == r.row_id
                    implies spec_collection_updated(s1.collections[i], r.data, user, r.version, now)
                    == s1.collections[i] by {
                    let c = s1.collections[i];
                    assert(s.collections.contains(c));
                    let j = choose|j: int|
                        0 <= j < s.collections.len() && #[trigger] s.collections[j] == c;
                }
            }
        },
        Some(TableKind::Vocabularies) => {
            lemma_filter_elems(s.vocabularies, |v: VocabularyRowV| v.id != other.row_id);
            if rec_kind(r) == Some(TableKind::Vocabularies) {
                let w = choose|i: int|
                    0 <= i < s.vocabularies.len() && (#[trigger] s.vocabularies[i]).id == r.row_id;
                assert(s.vocabularies.filter(|v: VocabularyRowV| v.id != other.row_id).contains(
                    s.vocabularies[w],
                ));
                assert(vocab_has(s1.vocabularies, r.row_id));
                assert forall|i: int|
                    0 <= i < s1.vocabularies.len() && (#[trigger] s1.vocabularies[i]).id
                    == r.row_id implies spec_vocab_updated(s1.vocabularies[i], r.data, r.version, now)
                    == s1.vocabularies[i] by {
                    let v = s1.vocabularies[i];
                    assert(s.vocabularies.contains(v));
                    let j = choose|j: int|
                        0 <= j < s.vocabularies.len() && #[trigger] s.vocabularies[j] == v;
                }
            }
        },
        Some(ko) => {
            lemma_filter_elems(s.rows, |g: GenericRowV| !(g.table == ko && g.id == other.row_id));
            if rec_kind(r) is Some && rec_kind(r) != Some(TableKind::Collections) && rec_kind(r)
                != Some(TableKind::Vocabularies) {
                let kr = rec_kind(r)->0;
                let w = choose|i: int|
                    0 <= i < s.rows.len() && (#[trigger] s.rows[i]).table == kr && s.rows[i].id
                        == r.row_id;
                assert(s.rows.filter(
                    |g: GenericRowV| !(g.table == ko && g.id == other.row_id),
                ).contains(s.rows[w]));
                assert(row_has(s1.rows, kr, r.row_id));
                assert forall|i: int|
                    0 <= i < s1.rows.len() && (#[trigger] s1.rows[i]).table == kr && s1.rows[i].id
                    == r.row_id implies (GenericRowV {
                    data: spec_normalize_table(kr, r.data, now),
                    meta: SyncMeta {
                        sync_version: r.version,
                        synced_at: Some(now),
                        ..s1.rows[i].meta
                    },
                    ..s1.rows[i]
                }) == s1.rows[i] by {
                    let g = s1.rows[i];
                    assert(s.rows.contains(g));
                    let j = choose|j: int| 0 <= j < s.rows.len() && #[trigger] s.rows[j] == g;
                }
            }
        },
        None => {},
    }
}

/// Any delete preserves any absence: deleting only removes rows.
pub proof fn lemma_delete_preserves_absent(s: StoreV, other: RecordV, r: RecordV)
    requires
        absent(s, r),
    ensures
        absent(spec_apply_delete_one(s, other), r),
{
    broadcast use vstd::seq_lib::group_filter_ensures;

    let s1 = spec_apply_delete_one(s, other);
    match rec_kind(other) {
        Some(TableKind::Collections) => {
            lemma_filter_elems(s.collections, |c: CollectionRowV| c.id != other.row_id);
        },
        Some(TableKind::Vocabularies) => {
            lemma_filter_elems(s.vocabularies, |v: VocabularyRowV| v.id != other.row_id);
        },
        Some(ko) => {
            lemma_filter_elems(s.rows, |g: GenericRowV| !(g.table == ko && g.id == other.row_id));
        },
        None => {},
    }
    match rec_kind(r) {
        Some(TableKind::Collections) => {
            assert forall|i: int| 0 <= i < s1.collections.len() implies (
            #[trigger] s1.collections[i]).id != r.row_id by {
                assert(s.collections.contains(s1.collections[i]) || s1.collections
                    == s.collections);
                if s.collections.contains(s1.collections[i]) {
                    let j = choose|j: int|
                        0 <= j < s.collections.len() && #[trigger] s.collections[j]
                            == s1.collections[i];
                }
            }
        },
        Some(TableKind::Vocabularies) => {
            assert forall|i: int| 0 <= i < s1.vocabularies.len() implies (
            #[trigger] s1.vocabularies[i]).id != r.row_id by {
                assert(s.vocabularies.contains(s1.vocabularies[i]) || s1.vocabularies
                    == s.vocabularies);
                if s.vocabularies.contains(s1.vocabularies[i]) {
                    let j = choose|j: int|
                        0 <= j < s.vocabularies.len() && #[trigger] s.vocabularies[j]
                            == s1.vocabularies[i];
                }
            }
        },
        Some(kr) => {
            assert forall|i: int|
                0 <= i < s1.rows.len() implies !((#[trigger] s1.rows[i]).table == kr
                && s1.rows[i].id == r.row_id) by {
                assert(s.rows.contains(s1.rows[i]) || s1.rows == s.rows);
                if s.rows.contains(s1.rows[i]) {
                    let j = choose|j: int| 0 <= j < s.rows.len() && #[trigger] s.rows[j]
                        == s1.rows[i];
                }
            }
        },
        None => {},
    }
}

/// The bookkeeping pass preserves reflection and absence: it only changes
/// denormalized counts, which an upsert never writes.
pub proof fn lemma_refresh_preserves(s: StoreV, r: RecordV, user: Option<Seq<char>>, now: i64)
    ensures
        reflects(s, r, user, now) ==> reflects(spec_refresh_counts(s), r, user, now),
        absent(s, r) ==> absent(spec_refresh_counts(s), r),
{
    let s1 = spec_refresh_counts(s);
    assert(s1.vocabularies == s.vocabularies);
    assert(s1.rows == s.rows);
    if reflects(s, r, user, now) && rec_kind(r) == Some(TableKind::Collections) {
        let w = choose|i: int|
            0 <= i < s.collections.len() && (#[trigger] s.collections[i]).id == r.row_id;
        assert(s1.collections[w].id == r.row_id);
        assert forall|i: int|
            0 <= i < s1.collections.len() && (#[trigger] s1.collections[i]).id == r.row_id
            implies spec_collection_updated(s1.collections[i], r.data, user, r.version, now)
            == s1.collections[i] by {
            assert(s.collections[i].id == r.row_id);
            assert(spec_collection_updated(s.collections[i], r.data, user, r.version, now)
                == s.collections[i]);
            assert(spec_collection_updated(s1.collections[i], r.data, user, r.version, now)
                =~= s1.collections[i]);
        }
    }
    if absent(s, r) && rec_kind(r) == Some(TableKind::Collections) {
        assert forall|i: int| 0 <= i < s1.collections.len() implies (
        #[trigger] s1.collections[i]).id != r.row_id by {
            assert(s.collections[i].id != r.row_id);
        }
    }
}

/// Every record of a rank bucket comes from the batch and carries the
/// bucket's tombstone flag.
proof fn lemma_bucket_elems(records: Seq<RecordV>, del: bool, n: u32)
    ensures
        forall|i: int|
            0 <= i < spec_rank_bucket(records, del, n).len() ==> records.contains(
                #[trigger] spec_rank_bucket(records, del, n)[i],
            ) && spec_rank_bucket(records, del, n)[i].deleted == del,
{
    lemma_filter_elems(
        records,
        |r: RecordV| r.deleted == del && spec_rank_of(r, del) == Some(n),
    );
}

/// Every record of the ordered list comes from the batch and carries the
/// requested tombstone flag.
pub proof fn lemma_ordered_elems(records: Seq<RecordV>, del: bool)
    ensures
        forall|i: int|
            0 <= i < spec_ordered(records, del).len() ==> records.contains(
                #[trigger] spec_ordered(records, del)[i],
            ) && spec_ordered(records, del)[i].deleted == del,
{
    let n0: u32 = 0;
    let n1: u32 = 1;
    let n2: u32 = 2;
    let n3: u32 = 3;
    let n4: u32 = 4;
    let n5: u32 = 5;
    let n6: u32 = 6;
    let n7: u32 = 7;
    let n8: u32 = 8;
    let n9: u32 = 9;
    lemma_bucket_elems(records, del, n0);
    lemma_bucket_elems(records, del, n1);
    lemma_bucket_elems(records, del, n2);
    lemma_bucket_elems(records, del, n3);
    lemma_bucket_elems(records, del, n4);
    lemma_bucket_elems(records, del, n5);
    lemma_bucket_elems(records, del, n6);
    lemma_bucket_elems(records, del, n7);
    lemma_bucket_elems(records, del, n8);
    lemma_bucket_elems(records, del, n9);
}

/// Two records of a batch without repeated row ids that carry the same
/// row id are the same record.
proof fn lemma_contained_same_key_equal(records: Seq<RecordV>, a: RecordV, b: RecordV)
    requires
        distinct_keys(records),
        records.contains(a),
        records.contains(b),
        rec_kind(a) is Some,
        rec_kind(b) is Some,
        a.row_id == b.row_id,
    ensures
        a == b,
{
    let p = choose|p: int| 0 <= p < records.len() && records[p] == a;
    let q = choose|q: int| 0 <= q < records.len() && records[q] == b;
    if p < q {
        assert(!same_key(records[p], records[q]));
    } else if q < p {
        assert(!same_key(records[q], records[p]));
    }
}

/// Folding upserts that the store already reflects changes nothing.
pub proof fn lemma_fold_upserts_noop(s: StoreV, rs: Seq<RecordV>, user: Option<Seq<char>>, now: i64)
    requires
        forall|i: int| 0 <= i < rs.len() ==> reflects(s, #[trigger] rs[i], user, now),
    ensures
        spec_fold_upserts(s, rs, user, now) == s,
    decreases rs.len(),
{
    if rs.len() > 0 {
        lemma_upsert_noop(s, rs[0], user, now);
        assert(forall|i: int|
            0 <= i < rs.drop_first().len() ==> #[trigger] rs.drop_first()[i] == rs[i + 1]);
        lemma_fold_upserts_noop(s, rs.drop_first(), user, now);
    }
}

/// Folding deletes whose rows are already gone changes nothing.
pub proof fn lemma_fold_deletes_noop(s: StoreV, rs: Seq<RecordV>)
    requires
        forall|i: int| 0 <= i < rs.len() ==> absent(s, #[trigger] rs[i]),
    ensures
        spec_fold_deletes(s, rs) == s,
    decreases rs.len(),
{
    if rs.len() > 0 {
        lemma_delete_noop(s, rs[0]);
        assert(forall|i: int|
            0 <= i < rs.drop_first().len() ==> #[trigger] rs.drop_first()[i] == rs[i + 1]);
        lemma_fold_deletes_noop(s, rs.drop_first());
    }
}

/// After the upsert pass, the store reflects every upserted record; any
/// record already reflected stays reflected, and any tombstoned row
/// already gone stays gone.
proof fn lemma_fold_upserts_establishes(
    s: StoreV,
    rs: Seq<RecordV>,
    user: Option<Seq<char>>,
    now: i64,
    records: Seq<RecordV>,
)
    requires
        distinct_keys(records),
        forall|i: int|
            0 <= i < rs.len() ==> records.contains(#[trigger] rs[i]) && !rs[i].deleted,
    ensures
        forall|i: int|
            0 <= i < rs.len() ==> reflects(
                spec_fold_upserts(s, rs, user, now),
                #[trigger] rs[i],
                user,
                now,
            ),
        forall|r0: RecordV|
            records.contains(r0) && !r0.deleted && reflects(s, r0, user, now) ==> reflects(
                spec_fold_upserts(s, rs, user, now),
                r0,
                user,
                now,
            ),
        forall|rd: RecordV|
            records.contains(rd) && rd.deleted && absent(s, rd) ==> absent(
                spec_fold_upserts(s, rs, user, now),
                rd,
            ),
    decreases rs.len(),
{
    if rs.len() == 0 {
        return ;
    }
    let r = rs[0];
    let s1 = spec_apply_upsert_one(s, r, user, now);
    lemma_upsert_establishes(s, r, user, now);
    assert forall|r0: RecordV|
        records.contains(r0) && !r0.deleted && reflects(s, r0, user, now) implies reflects(
        s1,
        r0,
        user,
        now,
    ) by {
        if rec_kind(r) is Some && rec_kind(r0) is Some && r.row_id == r0.row_id {
            lemma_contained_same_key_equal(records, r, r0);
        } else {
            lemma_upsert_preserves(s, r, r0, user, now);
        }
    }
    assert forall|rd: RecordV|
        records.contains(rd) && rd.deleted && absent(s, rd) implies absent(s1, rd) by {
        if rec_kind(r) is Some && rec_kind(rd) is Some && r.row_id == rd.row_id {
            lemma_contained_same_key_equal(records, r, rd);
            assert(false);
        } else {
            lemma_upsert_preserves(s, r, rd, user, now);
        }
    }
    assert(forall|i: int|
        0 <= i < rs.drop_first().len() ==> #[trigger] rs.drop_first()[i] == rs[i + 1]);
    lemma_fold_upserts_establishes(s1, rs.drop_first(), user, now, records);
    assert forall|i: int|
        0 <= i < rs.len() implies reflects(
        spec_fold_upserts(s, rs, user, now),
        #[trigger] rs[i],
        user,
        now,
    ) by {
        if i == 0 {
            assert(reflects(s1, r, user, now));
        } else {
            assert(rs.drop_first()[i - 1] == rs[i]);
        }
    }
}

/// After the delete pass, every tombstoned row is gone; reflected records
/// of other rows stay reflected, and rows already gone stay gone.
proof fn lemma_fold_deletes_establishes(
    s: StoreV,
    rs: Seq<RecordV>,
    user: Option<Seq<char>>,
    now: i64,
    records: Seq<RecordV>,
)
    requires
        distinct_keys(records),
        forall|i: int| 0 <= i < rs.len() ==> records.contains(#[trigger] rs[i]) && rs[i].deleted,
    ensures
        forall|i: int| 0 <= i < rs.len() ==> absent(spec_fold_deletes(s, rs), #[trigger] rs[i]),
        forall|r0: RecordV|
            records.contains(r0) && !r0.deleted && reflects(s, r0, user, now) ==> reflects(
                spec_fold_deletes(s, rs),
                r0,
                user,
                now,
            ),
        forall|rd: RecordV| absent(s, rd) ==> absent(spec_fold_deletes(s, rs), rd),
    decreases rs.len(),
{
    if rs.len() == 0 {
        return ;
    }
    let r = rs[0];
    let s1 = spec_apply_delete_one(s, r);
    lemma_delete_establishes(s, r);
    assert forall|r0: RecordV|
        records.contains(r0) && !r0.deleted && reflects(s, r0, user, now) implies reflects(
        s1,
        r0,
        user,
        now,
    ) by {
        if rec_kind(r) is Some && rec_kind(r0) is Some && r.row_id == r0.row_id {
            lemma_contained_same_key_equal(records, r, r0);
            assert(false);
        } else {
            lemma_delete_preserves(s, r, r0, user, now);
        }
    }
    assert forall|rd: RecordV| absent(s, rd) implies absent(s1, rd) by {
        lemma_delete_preserves_absent(s, r, rd);
    }
    assert(forall|i: int|
        0 <= i < rs.drop_first().len() ==> #[trigger] rs.drop_first()[i] == rs[i + 1]);
    lemma_fold_deletes_establishes(s1, rs.drop_first(), user, now, records);
    assert forall|i: int|
        0 <= i < rs.len() implies absent(spec_fold_deletes(s, rs), #[trigger] rs[i]) by {
        if i == 0 {
            assert(absent(s1, r));
        } else {
            assert(rs.drop_first()[i - 1] == rs[i]);
        }
    }
}

/// Replaying the same pull response twice yields the same final store as
/// replaying it once: no duplicate rows and no drift in the recomputed
/// aggregates. The batch addresses each row at most once, as a pull
/// response over never-reused row ids does.
pub proof fn lemma_apply_idempotent(
    s: StoreV,
    records: Seq<RecordV>,
    user: Option<Seq<char>>,
    now: i64,
)
    requires
        distinct_keys(records),
    ensures
        spec_apply_records(spec_apply_records(s, records, user, now), records, user, now)
            == spec_apply_records(s, records, user, now),
{
    let ups = spec_ordered(records, false);
    let dels = spec_ordered(records, true);
    lemma_ordered_elems(records, false);
    lemma_ordered_elems(records, true);
    let s1 = spec_fold_upserts(s, ups, user, now);
    lemma_fold_upserts_establishes(s, ups, user, now, records);
    let s2 = spec_fold_deletes(s1, dels);
    lemma_fold_deletes_establishes(s1, dels, user, now, records);
    let s3 = spec_refresh_counts(s2);
    assert(s3 == spec_apply_records(s, records, user, now));
    assert forall|i: int| 0 <= i < ups.len() implies reflects(s3, #[trigger] ups[i], user, now) by {
        assert(reflects(s1, ups[i], user, now));
        assert(reflects(s2, ups[i], user, now));
        lemma_refresh_preserves(s2, ups[i], user, now);
    }
    assert forall|i: int| 0 <= i < dels.len() implies absent(s3, #[trigger] dels[i]) by {
        lemma_refresh_preserves(s2, dels[i], user, now);
    }
    lemma_fold_upserts_noop(s3, ups, user, now);
    lemma_fold_deletes_noop(s3, dels);
    lemma_refresh_idempotent(s2);
    assert(spec_apply_records(s3, records, user, now) == s3);
}

// ---------------------------------------------------------------------------
// Dependency-safe apply.
// ---------------------------------------------------------------------------

/// The batch tombstones the vocabulary row with this id.
pub open spec fn covered_by_delete(records: Seq<RecordV>, id: Seq<char>) -> bool {
    exists|i: int|
        0 <= i < records.len() && (#[trigger] records[i]).deleted && rec_kind(records[i])
            == Some(TableKind::Vocabularies) && records[i].row_id == id
}

/// Every vocabulary referencing the parent is covered by a delete record.
pub open spec fn children_covered(
    vocabs: Seq<VocabularyRowV>,
    records: Seq<RecordV>,
    parent: Seq<char>,
) -> bool {
    forall|j: int|
        0 <= j < vocabs.len() && (#[trigger] vocabs[j]).collection_id == parent
            ==> covered_by_delete(records, vocabs[j].id)
}

/// The upsert pass never creates or re-targets a vocabulary onto the
/// parent, so coverage of the parent's children survives it.
proof fn lemma_fold_upserts_keeps_covered(
    s: StoreV,
    rs: Seq<RecordV>,
    user: Option<Seq<char>>,
    now: i64,
    records: Seq<RecordV>,
    parent: Seq<char>,
)
    requires
        children_covered(s.vocabularies, records, parent),
        forall|i: int| 0 <= i < rs.len() ==> records.contains(#[trigger] rs[i]) && !rs[i].deleted,
        forall|i: int|
            0 <= i < records.len() && !(#[trigger] records[i]).deleted && rec_kind(records[i])
                == Some(TableKind::Vocabularies) ==> spec_str_or(
                records[i].data,
                "collectionId"@,
                ""@,
            ) != parent,
    ensures
        children_covered(spec_fold_upserts(s, rs, user, now).vocabularies, records, parent),
    decreases rs.len(),
{
    if rs.len() == 0 {
        return ;
    }
    let r = rs[0];
    let s1 = spec_apply_upsert_one(s, r, user, now);
    assert(records.contains(r));
    let p = choose|p: int| 0 <= p < records.len() && records[p] == r;
    assert forall|j: int|
        0 <= j < s1.vocabularies.len() && (#[trigger] s1.vocabularies[j]).collection_id == parent
        implies covered_by_delete(records, s1.vocabularies[j].id) by {
        if rec_kind(r) == Some(TableKind::Vocabularies) {
            if vocab_has(s.vocabularies, r.row_id) {
                if s.vocabularies[j].id == r.row_id {
                    assert(s1.vocabularies[j] == spec_vocab_updated(
                        s.vocabularies[j],
                        r.data,
                        r.version,
                        now,
                    ));
                    assert(s1.vocabularies[j].collection_id == spec_str_or(
                        r.data,
                        "collectionId"@,
                        ""@,
                    ));
                } else {
                    assert(s1.vocabularies[j] == s.vocabularies[j]);
                }
            } else {
                if j == s.vocabularies.len() as int {
                    assert(s1.vocabularies[j] == spec_vocab_inserted(
                        r.data,
                        r.row_id,
                        r.version,
                        now,
                    ));
                    assert(s1.vocabularies[j].collection_id == spec_str_or(
                        r.data,
                        "collectionId"@,
                        ""@,
                    ));
                } else {
                    assert(s1.vocabularies[j] == s.vocabularies[j]);
                }
            }
        } else {
            assert(s1.vocabularies == s.vocabularies);
        }
    }
    assert(forall|i: int|
        0 <= i < rs.drop_first().len() ==> #[trigger] rs.drop_first()[i] == rs[i + 1]);
    lemma_fold_upserts_keeps_covered(s1, rs.drop_first(), user, now, records, parent);
}

/// Every tombstoned record of a known table appears in the ordered delete
/// list.
proof fn lemma_ordered_complete(records: Seq<RecordV>, del: bool, i: int)
    requires
        0 <= i < records.len(),
        records[i].deleted == del,
        rec_kind(records[i]) is Some,
    ensures
        spec_ordered(records, del).contains(records[i]),
{
    broadcast use vstd::seq_lib::group_filter_ensures;
    broadcast use vstd::seq_lib::group_seq_properties;

    let r = records[i];
    let n = spec_rank_of(r, del)->0;
    assert(n < 10) by {
        crate::tables::lemma_delete_rank_reverses(rec_kind(r)->0, rec_kind(r)->0);
    }
    assert(spec_rank_bucket(records, del, n).contains(r)) by {
        assert((|rr: RecordV| rr.deleted == del && spec_rank_of(rr, del) == Some(n))(records[i]));
    }
    let b0 = spec_rank_bucket(records, del, 0);
    let b1 = spec_rank_bucket(records, del, 1);
    let b2 = spec_rank_bucket(records, del, 2);
    let b3 = spec_rank_bucket(records, del, 3);
    let b4 = spec_rank_bucket(records, del, 4);
    let b5 = spec_rank_bucket(records, del, 5);
    let b6 = spec_rank_bucket(records, del, 6);
    let b7 = spec_rank_bucket(records, del, 7);
    let b8 = spec_rank_bucket(records, del, 8);
    let b9 = spec_rank_bucket(records, del, 9);
    assert(spec_ordered(records, del) == b0 + b1 + b2 + b3 + b4 + b5 + b6 + b7 + b8 + b9);
}

/// The delete pass only removes vocabulary rows.
proof fn lemma_fold_deletes_vocab_subset(s: StoreV, rs: Seq<RecordV>)
    ensures
        forall|j: int|
            0 <= j < spec_fold_deletes(s, rs).vocabularies.len() ==> s.vocabularies.contains(
                #[trigger] spec_fold_deletes(s, rs).vocabularies[j],
            ),
    decreases rs.len(),
{
    broadcast use vstd::seq_lib::group_seq_properties;

    if rs.len() == 0 {
        assert forall|j: int|
            0 <= j < spec_fold_deletes(s, rs).vocabularies.len() implies s.vocabularies.contains(
            #[trigger] spec_fold_deletes(s, rs).vocabularies[j],
        ) by {
            assert(spec_fold_deletes(s, rs).vocabularies[j] == s.vocabularies[j]);
        }
        return ;
    }
    let r = rs[0];
    let s1 = spec_apply_delete_one(s, r);
    lemma_fold_deletes_vocab_subset(s1, rs.drop_first());
    if rec_kind(r) == Some(TableKind::Vocabularies) {
        lemma_filter_elems(s.vocabularies, |v: VocabularyRowV| v.id != r.row_id);
    }
    assert forall|j: int|
        0 <= j < spec_fold_deletes(s, rs).vocabularies.len() implies s.vocabularies.contains(
        #[trigger] spec_fold_deletes(s, rs).vocabularies[j],
    ) by {
        let v = spec_fold_deletes(s, rs).vocabularies[j];
        assert(s1.vocabularies.contains(v));
        let w = choose|w: int| 0 <= w < s1.vocabularies.len() && s1.vocabularies[w] == v;
        if rec_kind(r) == Some(TableKind::Vocabularies) {
            assert(s.vocabularies.contains(s1.vocabularies[w]));
        } else {
            assert(s1.vocabularies == s.vocabularies);
        }
    }
}

/// Dependency-safe apply: when a batch tombstones a parent collection,
/// tombstones every vocabulary that referenced it, and re-targets nothing
/// onto it, then after the apply no vocabulary references the now-absent
/// parent.
pub proof fn lemma_dependency_safe_apply(
    s: StoreV,
    records: Seq<RecordV>,
    user: Option<Seq<char>>,
    now: i64,
    parent: Seq<char>,
)
    requires
        exists|i: int|
            0 <= i < records.len() && (#[trigger] records[i]).deleted && rec_kind(records[i])
                == Some(TableKind::Collections) && records[i].row_id == parent,
        children_covered(s.vocabularies, records, parent),
        forall|i: int|
            0 <= i < records.len() && !(#[trigger] records[i]).deleted && rec_kind(records[i])
                == Some(TableKind::Vocabularies) ==> spec_str_or(
                records[i].data,
                "collectionId"@,
                ""@,
            ) != parent,
    ensures
        !col_has(spec_apply_records(s, records, user, now).collections, parent),
        forall|j: int|
            0 <= j < spec_apply_records(s, records, user, now).vocabularies.len() ==> (
            #[trigger] spec_apply_records(s, records, user, now).vocabularies[j]).collection_id
                != parent,
{
    let ups = spec_ordered(records, false);
    let dels = spec_ordered(records, true);
    lemma_ordered_elems(records, false);
    lemma_ordered_elems(records, true);
    let s1 = spec_fold_upserts(s, ups, user, now);
    lemma_fold_upserts_keeps_covered(s, ups, user, now, records, parent);
    let s2 = spec_fold_deletes(s1, dels);
    let s3 = spec_refresh_counts(s2);
    assert(s3 == spec_apply_records(s, records, user, now));
    assert(s3.vocabularies == s2.vocabularies);

    // The parent collection is gone: its delete record is in the ordered
    // delete list, and after the delete pass its row is absent.
    let pi = choose|i: int|
        0 <= i < records.len() && (#[trigger] records[i]).deleted && rec_kind(records[i])
            == Some(TableKind::Collections) && records[i].row_id == parent;
    lemma_ordered_complete(records, true, pi);
    let pd = choose|k: int| 0 <= k < dels.len() && dels[k] == records[pi];
    lemma_fold_deletes_only_absent(s1, dels, user, now, records);
    assert(absent(s2, dels[pd]));
    assert(!col_has(s2.collections, parent));
    assert forall|j: int| 0 <= j < s3.collections.len() implies (
    #[trigger] s3.collections[j]).id != parent by {
        assert(s3.collections[j].id == s2.collections[j].id);
    }

    // No surviving vocabulary references the parent: any such row survived
    // the delete pass, so it was present after the upserts, so the batch
    // tombstones it, so the delete pass removed it.
    assert forall|j: int|
        0 <= j < s3.vocabularies.len() implies (#[trigger] s3.vocabularies[j]).collection_id
        != parent by {
        if s3.vocabularies[j].collection_id == parent {
            let v = s2.vocabularies[j];
            lemma_fold_deletes_vocab_subset(s1, dels);
            assert(s1.vocabularies.contains(v));
            let w = choose|w: int| 0 <= w < s1.vocabularies.len() && s1.vocabularies[w] == v;
            assert(covered_by_delete(records, v.id));
            let di = choose|i: int|
                0 <= i < records.len() && (#[trigger] records[i]).deleted && rec_kind(records[i])
                    == Some(TableKind::Vocabularies) && records[i].row_id == v.id;
            lemma_ordered_complete(records, true, di);
            let dk = choose|k: int| 0 <= k < dels.len() && dels[k] == records[di];
            assert(absent(s2, dels[dk]));
            assert(!vocab_has(s2.vocabularies, v.id));
            assert(s2.vocabularies[j].id == v.id);
            assert(false);
        }
    }
}

/// After the delete pass, every ordered delete record's row is absent.
proof fn lemma_fold_deletes_only_absent(
    s: StoreV,
    dels: Seq<RecordV>,
    user: Option<Seq<char>>,
    now: i64,
    records: Seq<RecordV>,
)
    requires
        forall|i: int| 0 <= i < dels.len() ==> records.contains(#[trigger] dels[i]) && dels[i].deleted,
    ensures
        forall|i: int| 0 <= i < dels.len() ==> absent(spec_fold_deletes(s, dels), #[trigger] dels[i]),
    decreases dels.len(),
{
    if dels.len() == 0 {
        return ;
    }
    let r = dels[0];
    let s1 = spec_apply_delete_one(s, r);
    lemma_delete_establishes(s, r);
    assert(forall|i: int|
        0 <= i < dels.drop_first().len() ==> #[trigger] dels.drop_first()[i] == dels[i + 1]);
    lemma_fold_deletes_only_absent(s1, dels.drop_first(), user, now, records);
    assert forall|i: int|
        0 <= i < dels.len() implies absent(spec_fold_deletes(s, dels), #[trigger] dels[i]) by {
        if i == 0 {
            assert forall|rd: RecordV| absent(s1, rd) implies absent(
                spec_fold_deletes(s1, dels.drop_first()),
                rd,
            ) by {
                lemma_fold_deletes_preserves_absent(s1, dels.drop_first(), rd);
            }
        } else {
            assert(dels.drop_first()[i - 1] == dels[i]);
        }
    }
}

/// A row absent before the delete pass is absent after it.
proof fn lemma_fold_deletes_preserves_absent(s: StoreV, rs: Seq<RecordV>, rd: RecordV)
    ensures
        absent(s, rd) ==> absent(spec_fold_deletes(s, rs), rd),
    decreases rs.len(),
{
    if rs.len() > 0 {
        if absent(s, rd) {
            lemma_delete_preserves_absent(s, rs[0], rd);
        }
        lemma_fold_deletes_preserves_absent(spec_apply_delete_one(s, rs[0]), rs.drop_first(), rd);
    }
}

// ---------------------------------------------------------------------------
// Tombstone purge on a confirmed push.
// ---------------------------------------------------------------------------

/// Marking one record of a confirmed batch never resurrects a purged row.
proof fn lemma_mark_one_preserves_absent(s: StoreV, r: RecordV, ts: i64, rd: RecordV)
    requires
        absent(s, rd),
    ensures
        absent(spec_mark_one(s, r, ts), rd),
{
    if r.deleted {
        lemma_delete_preserves_absent(s, r, rd);
    } else {
        let s1 = spec_mark_one(s, r, ts);
        match rec_kind(rd) {
            Some(TableKind::Collections) => {
                assert forall|i: int| 0 <= i < s1.collections.len() implies (
                #[trigger] s1.collections[i]).id != rd.row_id by {
                    assert(s1.collections[i].id == s.collections[i].id);
                }
            },
            Some(TableKind::Vocabularies) => {
                assert forall|i: int| 0 <= i < s1.vocabularies.len() implies (
                #[trigger] s1.vocabularies[i]).id != rd.row_id by {
                    assert(s1.vocabularies[i].id == s.vocabularies[i].id);
                }
            },
            Some(kr) => {
                assert forall|i: int|
                    0 <= i < s1.rows.len() implies !((#[trigger] s1.rows[i]).table == kr
                    && s1.rows[i].id == rd.row_id) by {
                    assert(s1.rows[i].table == s.rows[i].table && s1.rows[i].id == s.rows[i].id);
                }
            },
            None => {},
        }
    }
}

proof fn lemma_mark_fold_preserves_absent(s: StoreV, rs: Seq<RecordV>, ts: i64, rd: RecordV)
    requires
        absent(s, rd),
    ensures
        absent(spec_mark_synced(s, rs, ts), rd),
    decreases rs.len(),
{
    if rs.len() > 0 {
        lemma_mark_one_preserves_absent(s, rs[0], ts, rd);
        lemma_mark_fold_preserves_absent(spec_mark_one(s, rs[0], ts), rs.drop_first(), ts, rd);
    }
}

/// Once the authority acknowledges a pushed batch, every tombstone in the
/// batch is physically purged from the store: the row no longer exists,
/// it is not merely flagged.
pub proof fn lemma_push_ack_purges_tombstones(s: StoreV, records: Seq<RecordV>, ts: i64, i: int)
    requires
        0 <= i < records.len(),
        records[i].deleted,
    ensures
        absent(spec_mark_synced(s, records, ts), records[i]),
    decreases records.len(),
{
    let r = records[0];
    let s1 = spec_mark_one(s, r, ts);
    if i == 0 {
        lemma_delete_establishes(s, r);
        lemma_mark_fold_preserves_absent(s1, records.drop_first(), ts, r);
    } else {
        assert(records.drop_first()[i - 1] == records[i]);
        lemma_push_ack_purges_tombstones(s1, records.drop_first(), ts, i - 1);
    }
}

// ---------------------------------------------------------------------------
// The outbound batch covers every dirty row.
// ---------------------------------------------------------------------------

/// The collector includes a non-deleted record for every dirty vocabulary,
/// so a push of the collected batch always carries the entity's row id.
pub proof fn lemma_collect_includes_dirty_vocab(s: StoreV, user: Option<Seq<char>>, j: int)
    requires
        0 <= j < s.vocabularies.len(),
        vocab_is_dirty(s.vocabularies[j]),
    ensures
        exists|k: int|
            0 <= k < spec_collect(s, user).len() && (#[trigger] spec_collect(s, user)[k]).row_id
                == s.vocabularies[j].id && !spec_collect(s, user)[k].deleted,
{
    broadcast use vstd::seq_lib::group_filter_ensures;

    let seg = s.vocabularies.filter(|v: VocabularyRowV| vocab_is_dirty(v));
    assert(seg.contains(s.vocabularies[j]));
    let w = choose|w: int| 0 <= w < seg.len() && seg[w] == s.vocabularies[j];
    let mapped = seg.map_values(
        |v: VocabularyRowV| RecordV {
            table_name: "vocabularies"@,
            row_id: v.id,
            version: v.meta.sync_version,
            deleted: false,
            data: spec_encode_vocabulary(v),
        },
    );
    assert(mapped[w].row_id == s.vocabularies[j].id && !mapped[w].deleted);
    let whole = spec_collect(s, user);
    let tail = s.rows.filter(|g: GenericRowV| crate::collect::row_is_dirty(g)).map_values(
        |g: GenericRowV| RecordV {
            table_name: crate::tables::spec_wire_name(g.table),
            row_id: g.id,
            version: g.meta.sync_version,
            deleted: false,
            data: g.data,
        },
    );
    let pre_len = whole.len() - mapped.len() - tail.len();
    let k = pre_len + w;
    assert(whole[k] == mapped[w]);
}

// ---------------------------------------------------------------------------
// The apply order respects the dependency rank.
// ---------------------------------------------------------------------------

proof fn lemma_upto_ranked(records: Seq<RecordV>, del: bool, n: u32)
    requires
        n <= 10,
    ensures
        forall|i: int|
            0 <= i < spec_buckets_upto(records, del, n).len() ==> spec_rank_of(
                #[trigger] spec_buckets_upto(records, del, n)[i],
                del,
            ) is Some && spec_rank_of(spec_buckets_upto(records, del, n)[i], del)->0 < n,
        forall|i: int, j: int|
            0 <= i <= j < spec_buckets_upto(records, del, n).len() ==> spec_rank_of(
                #[trigger] spec_buckets_upto(records, del, n)[i],
                del,
            )->0 <= spec_rank_of(#[trigger] spec_buckets_upto(records, del, n)[j], del)->0,
    decreases n,
{
    broadcast use vstd::seq_lib::group_filter_ensures;

    if n == 0 {
        return ;
    }
    lemma_upto_ranked(records, del, (n - 1) as u32);
    let prev = spec_buckets_upto(records, del, (n - 1) as u32);
    let bucket = spec_rank_bucket(records, del, (n - 1) as u32);
    let whole = spec_buckets_upto(records, del, n);
    assert(whole == prev + bucket);
    assert forall|i: int|
        0 <= i < whole.len() implies spec_rank_of(#[trigger] whole[i], del) is Some
        && spec_rank_of(whole[i], del)->0 < n by {
        if i < prev.len() {
            assert(whole[i] == prev[i]);
        } else {
            assert(whole[i] == bucket[i - prev.len()]);
            assert((|r: RecordV| r.deleted == del && spec_rank_of(r, del) == Some((n - 1) as u32))(
                bucket[i - prev.len()],
            ));
        }
    }
    assert forall|i: int, j: int|
        0 <= i <= j < whole.len() implies spec_rank_of(#[trigger] whole[i], del)->0 <= spec_rank_of(
        #[trigger] whole[j],
        del,
    )->0 by {
        if j < prev.len() {
        } else {
            assert(whole[j] == bucket[j - prev.len()]);
            assert((|r: RecordV| r.deleted == del && spec_rank_of(r, del) == Some((n - 1) as u32))(
                bucket[j - prev.len()],
            ));
            if i < prev.len() {
                assert(whole[i] == prev[i]);
            } else {
                assert(whole[i] == bucket[i - prev.len()]);
                assert((|r: RecordV| r.deleted == del && spec_rank_of(r, del) == Some(
                    (n - 1) as u32,
                ))(bucket[i - prev.len()]));
            }
        }
    }
}

/// The apply order is ascending in the dependency rank: non-deleted
/// records are replayed master tables first and dependents last, and
/// deleted records in the exact reverse, so a referenced row exists
/// before its dependents and dependents are removed before their parent.
pub proof fn lemma_ordered_by_rank(records: Seq<RecordV>, del: bool)
    ensures
        forall|i: int, j: int|
            0 <= i <= j < spec_ordered(records, del).len() ==> spec_rank_of(
                #[trigger] spec_ordered(records, del)[i],
                del,
            )->0 <= spec_rank_of(#[trigger] spec_ordered(records, del)[j], del)->0,
{
    lemma_upto_ranked(records, del, 10);
    assert(spec_buckets_upto(records, del, 10) == spec_ordered(records, del)) by {
        crate::apply::lemma_buckets_upto_all(records, del);
    }
}

/// A collected delete carries only the row id and the revision: its
/// payload is empty, and every non-deleted record of the batch stems from
/// a dirty row.
pub proof fn lemma_collect_deletes_bare(s: StoreV, user: Option<Seq<char>>, k: int)
    requires
        0 <= k < spec_collect(s, user).len(),
        spec_collect(s, user)[k].deleted,
    ensures
        spec_collect(s, user)[k].data == JsonV::Obj(Seq::empty()),
{
    let a = s.collections.filter(|c: CollectionRowV| col_is_tombstone(c)).map_values(
        |c: CollectionRowV| spec_tomb_record("collections"@, c.id, c.meta.sync_version),
    );
    let b = s.vocabularies.filter(|v: VocabularyRowV| vocab_is_tombstone(v)).map_values(
        |v: VocabularyRowV| spec_tomb_record("vocabularies"@, v.id, v.meta.sync_version),
    );
    let c = s.rows.filter(|g: GenericRowV| row_is_tombstone(g)).map_values(
        |g: GenericRowV| spec_tomb_record(crate::tables::spec_wire_name(g.table), g.id, g.meta.sync_version),
    );
    let d = s.collections.filter(|cc: CollectionRowV| col_is_pushable_dirty(cc)).map_values(
        |cc: CollectionRowV| RecordV {
            table_name: "collections"@,
            row_id: cc.id,
            version: cc.meta.sync_version,
            deleted: false,
            data: spec_encode_collection(cc, user),
        },
    );
    let e = s.vocabularies.filter(|v: VocabularyRowV| vocab_is_dirty(v)).map_values(
        |v: VocabularyRowV| RecordV {
            table_name: "vocabularies"@,
            row_id: v.id,
            version: v.meta.sync_version,
            deleted: false,
            data: spec_encode_vocabulary(v),
        },
    );
    let f = s.rows.filter(|g: GenericRowV| row_is_dirty(g)).map_values(
        |g: GenericRowV| RecordV {
            table_name: crate::tables::spec_wire_name(g.table),
            row_id: g.id,
            version: g.meta.sync_version,
            deleted: false,
            data: g.data,
        },
    );
    let whole = spec_collect(s, user);
    assert(whole == a + b + c + d + e + f);
    let t2 = a + b;
    let t3 = t2 + c;
    let t4 = t3 + d;
    let t5 = t4 + e;
    if k < t3.len() {
        // a tombstone segment: the record is a bare delete
        if k < a.len() {
            assert(whole[k] == a[k]);
        } else if k < t2.len() {
            assert(whole[k] == b[k - a.len()]);
        } else {
            assert(whole[k] == c[k - t2.len()]);
        }
    } else {
        // a dirty segment: its records are not deleted, against the premise
        if k < t4.len() {
            assert(whole[k] == d[k - t3.len()]);
        } else if k < t5.len() {
            assert(whole[k] == e[k - t4.len()]);
        } else {
            assert(whole[k] == f[k - t5.len()]);
        }
    }
}

// ---------------------------------------------------------------------------
// Order independence within a rank.
// ---------------------------------------------------------------------------

/// Two stores hold the same table contents: the same rows, regardless of
/// their storage order, and the same checkpoint.
pub open spec fn same_table_contents(x: StoreV, y: StoreV) -> bool {
    &&& x.collections.to_multiset() == y.collections.to_multiset()
    &&& x.vocabularies.to_multiset() == y.vocabularies.to_multiset()
    &&& x.rows.to_multiset() == y.rows.to_multiset()
    &&& x.checkpoint_updated_at == y.checkpoint_updated_at
    &&& x.checkpoint_id == y.checkpoint_id
}

/// Two delete steps commute exactly, whatever rows they address: each one
/// filters its table, and filters commute.
pub proof fn lemma_delete_commutes(s: StoreV, a: RecordV, b: RecordV)
    ensures
        spec_apply_delete_one(spec_apply_delete_one(s, a), b) == spec_apply_delete_one(
            spec_apply_delete_one(s, b),
            a,
        ),
{
    let s_ab = spec_apply_delete_one(spec_apply_delete_one(s, a), b);
    let s_ba = spec_apply_delete_one(spec_apply_delete_one(s, b), a);
    match (rec_kind(a), rec_kind(b)) {
        (Some(TableKind::Collections), Some(TableKind::Collections)) => {
            crate::util::lemma_filter_commutes(
                s.collections,
                |c: CollectionRowV| c.id != a.row_id,
                |c: CollectionRowV| c.id != b.row_id,
            );
            assert(s_ab =~= s_ba);
        },
        (Some(TableKind::Vocabularies), Some(TableKind::Vocabularies)) => {
            crate::util::lemma_filter_commutes(
                s.vocabularies,
                |v: VocabularyRowV| v.id != a.row_id,
                |v: VocabularyRowV| v.id != b.row_id,
            );
            assert(s_ab =~= s_ba);
        },
        (Some(ka), Some(kb)) => {
            if ka != TableKind::Collections && ka != TableKind::Vocabularies && kb
                != TableKind::Collections && kb != TableKind::Vocabularies {
                crate::util::lemma_filter_commutes(
                    s.rows,
                    |g: GenericRowV| !(g.table == ka && g.id == a.row_id),
                    |g: GenericRowV| !(g.table == kb && g.id == b.row_id),
                );
            }
            assert(s_ab =~= s_ba);
        },
        _ => {
            assert(s_ab =~= s_ba);
        },
    }
}

/// Two collection upserts of different rows commute up to row order.
proof fn lemma_commute_col_col(s: StoreV, a: RecordV, b: RecordV, user: Option<Seq<char>>, now: i64)
    requires
        rec_kind(a) == Some(TableKind::Collections),
        rec_kind(b) == Some(TableKind::Collections),
        a.row_id != b.row_id,
    ensures
        same_table_contents(
            spec_apply_upsert_one(spec_apply_upsert_one(s, a, user, now), b, user, now),
            spec_apply_upsert_one(spec_apply_upsert_one(s, b, user, now), a, user, now),
        ),
{
    broadcast use vstd::seq_lib::group_to_multiset_ensures;

    let t = s.collections;
    let s_a = spec_apply_upsert_one(s, a, user, now);
    let s_b = spec_apply_upsert_one(s, b, user, now);
    let s_ab = spec_apply_upsert_one(s_a, b, user, now);
    let s_ba = spec_apply_upsert_one(s_b, a, user, now);
    // neither step changes which ids the table holds, beyond its own row
    assert forall|i: int|
        0 <= i < s_a.collections.len() && (#[trigger] s_a.collections[i]).id == b.row_id implies i
        < t.len() && s_a.collections[i] == t[i] by {
        if !col_has(t, a.row_id) && i == t.len() as int {
            assert(s_a.collections[i] == spec_collection_inserted(
                a.data,
                a.row_id,
                user,
                a.version,
                now,
            ));
        }
    }
    assert forall|i: int|
        0 <= i < s_b.collections.len() && (#[trigger] s_b.collections[i]).id == a.row_id implies i
        < t.len() && s_b.collections[i] == t[i] by {
        if !col_has(t, b.row_id) && i == t.len() as int {
            assert(s_b.collections[i] == spec_collection_inserted(
                b.data,
                b.row_id,
                user,
                b.version,
                now,
            ));
        }
    }
    if col_has(t, a.row_id) {
        let w = choose|i: int| 0 <= i < t.len() && (#[trigger] t[i]).id == a.row_id;
        assert(s_b.collections[w].id == a.row_id || s_b.collections[w] == t[w]);
        assert(col_has(s_b.collections, a.row_id));
    }
    if col_has(t, b.row_id) {
        let w = choose|i: int| 0 <= i < t.len() && (#[trigger] t[i]).id == b.row_id;
        assert(s_a.collections[w].id == b.row_id || s_a.collections[w] == t[w]);
        assert(col_has(s_a.collections, b.row_id));
    }
    if !col_has(t, a.row_id) {
        assert(!col_has(s_b.collections, a.row_id));
    }
    if !col_has(t, b.row_id) {
        assert(!col_has(s_a.collections, b.row_id));
    }
    if col_has(t, a.row_id) || col_has(t, b.row_id) {
        // at most one step inserts, and the orders agree exactly
        assert(s_ab.collections =~= s_ba.collections);
    } else {
        // both insert: the rows are the same, in swapped order
        let ra = spec_collection_inserted(a.data, a.row_id, user, a.version, now);
        let rb = spec_collection_inserted(b.data, b.row_id, user, b.version, now);
        assert(s_ab.collections =~= t.push(ra).push(rb));
        assert(s_ba.collections =~= t.push(rb).push(ra));
        assert(t.push(ra).push(rb).to_multiset() =~= t.push(rb).push(ra).to_multiset());
    }
}

/// Two vocabulary upserts of different rows commute up to row order.
proof fn lemma_commute_voc_voc(s: StoreV, a: RecordV, b: RecordV, user: Option<Seq<char>>, now: i64)
    requires
        rec_kind(a) == Some(TableKind::Vocabularies),
        rec_kind(b) == Some(TableKind::Vocabularies),
        a.row_id != b.row_id,
    ensures
        same_table_contents(
            spec_apply_upsert_one(spec_apply_upsert_one(s, a, user, now), b, user, now),
            spec_apply_upsert_one(spec_apply_upsert_one(s, b, user, now), a, user, now),
        ),
{
    broadcast use vstd::seq_lib::group_to_multiset_ensures;

    let t = s.vocabularies;
    let s_a = spec_apply_upsert_one(s, a, user, now);
    let s_b = spec_apply_upsert_one(s, b, user, now);
    let s_ab = spec_apply_upsert_one(s_a, b, user, now);
    let s_ba = spec_apply_upsert_one(s_b, a, user, now);
    assert forall|i: int|
        0 <= i < s_a.vocabularies.len() && (#[trigger] s_a.vocabularies[i]).id == b.row_id
        implies i < t.len() && s_a.vocabularies[i] == t[i] by {
        if !vocab_has(t, a.row_id) && i == t.len() as int {
            assert(s_a.vocabularies[i] == spec_vocab_inserted(a.data, a.row_id, a.version, now));
        }
    }
    assert forall|i: int|
        0 <= i < s_b.vocabularies.len() && (#[trigger] s_b.vocabularies[i]).id == a.row_id
        implies i < t.len() && s_b.vocabularies[i] == t[i] by {
        if !vocab_has(t, b.row_id) && i == t.len() as int {
            assert(s_b.vocabularies[i] == spec_vocab_inserted(b.data, b.row_id, b.version, now));
        }
    }
    if vocab_has(t, a.row_id) {
        let w = choose|i: int| 0 <= i < t.len() && (#[trigger] t[i]).id == a.row_id;
        assert(s_b.vocabularies[w].id == a.row_id || s_b.vocabularies[w] == t[w]);
        assert(vocab_has(s_b.vocabularies, a.row_id));
    }
    if vocab_has(t, b.row_id) {
        let w = choose|i: int| 0 <= i < t.len() && (#[trigger] t[i]).id == b.row_id;
        assert(s_a.vocabularies[w].id == b.row_id || s_a.vocabularies[w] == t[w]);
        assert(vocab_has(s_a.vocabularies, b.row_id));
    }
    if !vocab_has(t, a.row_id) {
        assert(!vocab_has(s_b.vocabularies, a.row_id));
    }
    if !vocab_has(t, b.row_id) {
        assert(!vocab_has(s_a.vocabularies, b.row_id));
    }
    if vocab_has(t, a.row_id) || vocab_has(t, b.row_id) {
        assert(s_ab.vocabularies =~= s_ba.vocabularies);
    } else {
        let ra = spec_vocab_inserted(a.data, a.row_id, a.version, now);
        let rb = spec_vocab_inserted(b.data, b.row_id, b.version, now);
        assert(s_ab.vocabularies =~= t.push(ra).push(rb));
        assert(s_ba.vocabularies =~= t.push(rb).push(ra));
        assert(t.push(ra).push(rb).to_multiset() =~= t.push(rb).push(ra).to_multiset());
    }
}

/// Two generic-table upserts of different rows commute up to row order.
proof fn lemma_commute_gen_gen(
    s: StoreV,
    ka: TableKind,
    kb: TableKind,
    a: RecordV,
    b: RecordV,
    user: Option<Seq<char>>,
    now: i64,
)
    requires
        rec_kind(a) == Some(ka),
        rec_kind(b) == Some(kb),
        ka != TableKind::Collections,
        ka != TableKind::Vocabularies,
        kb != TableKind::Collections,
        kb != TableKind::Vocabularies,
        a.row_id != b.row_id,
    ensures
        same_table_contents(
            spec_apply_upsert_one(spec_apply_upsert_one(s, a, user, now), b, user, now),
            spec_apply_upsert_one(spec_apply_upsert_one(s, b, user, now), a, user, now),
        ),
{
    broadcast use vstd::seq_lib::group_to_multiset_ensures;

    let t = s.rows;
    let s_a = spec_apply_upsert_one(s, a, user, now);
    let s_b = spec_apply_upsert_one(s, b, user, now);
    let s_ab = spec_apply_upsert_one(s_a, b, user, now);
    let s_ba = spec_apply_upsert_one(s_b, a, user, now);
    let ra = GenericRowV {
        table: ka,
        id: a.row_id,
        data: spec_normalize_table(ka, a.data, now),
        meta: SyncMeta { sync_version: a.version, synced_at: Some(now), deleted: false, deleted_at: None },
    };
    let rb = GenericRowV {
        table: kb,
        id: b.row_id,
        data: spec_normalize_table(kb, b.data, now),
        meta: SyncMeta { sync_version: b.version, synced_at: Some(now), deleted: false, deleted_at: None },
    };
    assert forall|i: int|
        0 <= i < s_a.rows.len() && (#[trigger] s_a.rows[i]).id == b.row_id implies i < t.len()
        && s_a.rows[i] == t[i] by {
        if !row_has(t, ka, a.row_id) && i == t.len() as int {
            assert(s_a.rows[i] == ra);
        }
    }
    assert forall|i: int|
        0 <= i < s_b.rows.len() && (#[trigger] s_b.rows[i]).id == a.row_id implies i < t.len()
        && s_b.rows[i] == t[i] by {
        if !row_has(t, kb, b.row_id) && i == t.len() as int {
            assert(s_b.rows[i] == rb);
        }
    }
    if row_has(t, ka, a.row_id) {
        let w = choose|i: int|
            0 <= i < t.len() && (#[trigger] t[i]).table == ka && t[i].id == a.row_id;
        assert(s_b.rows[w].table == ka && s_b.rows[w].id == a.row_id);
        assert(row_has(s_b.rows, ka, a.row_id));
    }
    if row_has(t, kb, b.row_id) {
        let w = choose|i: int|
            0 <= i < t.len() && (#[trigger] t[i]).table == kb && t[i].id == b.row_id;
        assert(s_a.rows[w].table == kb && s_a.rows[w].id == b.row_id);
        assert(row_has(s_a.rows, kb, b.row_id));
    }
    if !row_has(t, ka, a.row_id) {
        assert(!row_has(s_b.rows, ka, a.row_id));
    }
    if !row_has(t, kb, b.row_id) {
        assert(!row_has(s_a.rows, kb, b.row_id));
    }
    if row_has(t, ka, a.row_id) || row_has(t, kb, b.row_id) {
        assert(s_ab.rows =~= s_ba.rows);
    } else {
        assert(s_ab.rows =~= t.push(ra).push(rb));
        assert(s_ba.rows =~= t.push(rb).push(ra));
        assert(t.push(ra).push(rb).to_multiset() =~= t.push(rb).push(ra).to_multiset());
    }
}

/// Within a rank the delivered order does not matter (the ordering keeps
/// it unspecified): two non-deleted records addressing different rows
/// apply in either order to the same table contents; only the storage
/// order of freshly inserted rows can differ, which no contract observes
/// beyond the row list itself.
pub proof fn lemma_upsert_commutes(
    s: StoreV,
    a: RecordV,
    b: RecordV,
    user: Option<Seq<char>>,
    now: i64,
)
    requires
        !same_key(a, b),
    ensures
        same_table_contents(
            spec_apply_upsert_one(spec_apply_upsert_one(s, a, user, now), b, user, now),
            spec_apply_upsert_one(spec_apply_upsert_one(s, b, user, now), a, user, now),
        ),
{
    let s_ab = spec_apply_upsert_one(spec_apply_upsert_one(s, a, user, now), b, user, now);
    let s_ba = spec_apply_upsert_one(spec_apply_upsert_one(s, b, user, now), a, user, now);
    match (rec_kind(a), rec_kind(b)) {
        (Some(TableKind::Collections), Some(TableKind::Collections)) => {
            lemma_commute_col_col(s, a, b, user, now);
        },
        (Some(TableKind::Vocabularies), Some(TableKind::Vocabularies)) => {
            lemma_commute_voc_voc(s, a, b, user, now);
        },
        (Some(ka), Some(kb)) => {
            if ka != TableKind::Collections && ka != TableKind::Vocabularies && kb
                != TableKind::Collections && kb != TableKind::Vocabularies {
                lemma_commute_gen_gen(s, ka, kb, a, b, user, now);
            } else {
                // the two steps touch different tables
                assert(s_ab =~= s_ba);
            }
        },
        _ => {
            assert(s_ab =~= s_ba);
        },
    }
}

// ---------------------------------------------------------------------------
// Acknowledged rows are stamped synced.
// ---------------------------------------------------------------------------

/// The store holds the row a record addresses.
pub open spec fn has_row_of(s: StoreV, r: RecordV) -> bool {
    match rec_kind(r) {
        Some(TableKind::Collections) => col_has(s.collections, r.row_id),
        Some(TableKind::Vocabularies) => vocab_has(s.vocabularies, r.row_id),
        Some(k) => row_has(s.rows, k, r.row_id),
        None => true,
    }
}

/// Every row a record addresses carries the acknowledgement stamp.
pub open spec fn marked_synced(s: StoreV, r: RecordV, ts: i64) -> bool {
    match rec_kind(r) {
        Some(TableKind::Collections) => forall|i: int|
            0 <= i < s.collections.len() && (#[trigger] s.collections[i]).id == r.row_id
                ==> s.collections[i].meta.synced_at == Some(ts),
        Some(TableKind::Vocabularies) => forall|i: int|
            0 <= i < s.vocabularies.len() && (#[trigger] s.vocabularies[i]).id == r.row_id
                ==> s.vocabularies[i].meta.synced_at == Some(ts),
        Some(k) => forall|i: int|
            0 <= i < s.rows.len() && (#[trigger] s.rows[i]).table == k && s.rows[i].id == r.row_id
                ==> s.rows[i].meta.synced_at == Some(ts),
        None => true,
    }
}

/// Marking a non-deleted record stamps its row.
proof fn lemma_mark_one_marks(s: StoreV, r: RecordV, ts: i64)
    requires
        !r.deleted,
        has_row_of(s, r),
    ensures
        has_row_of(spec_mark_one(s, r, ts), r),
        marked_synced(spec_mark_one(s, r, ts), r, ts),
{
    let s1 = spec_mark_one(s, r, ts);
    match rec_kind(r) {
        Some(TableKind::Collections) => {
            let w = choose|i: int|
                0 <= i < s.collections.len() && (#[trigger] s.collections[i]).id == r.row_id;
            assert(s1.collections[w].id == r.row_id);
        },
        Some(TableKind::Vocabularies) => {
            let w = choose|i: int|
                0 <= i < s.vocabularies.len() && (#[trigger] s.vocabularies[i]).id == r.row_id;
            assert(s1.vocabularies[w].id == r.row_id);
        },
        Some(kr) => {
            let w = choose|i: int|
                0 <= i < s.rows.len() && (#[trigger] s.rows[i]).table == kr && s.rows[i].id
                    == r.row_id;
            assert(s1.rows[w].table == kr && s1.rows[w].id == r.row_id);
        },
        None => {},
    }
}

/// Marking a record addressing another row neither unstamps nor removes
/// this record's row.
proof fn lemma_mark_one_preserves_row_facts(s: StoreV, rp: RecordV, ts: i64, r: RecordV)
    requires
        !same_key(rp, r),
    ensures
        has_row_of(s, r) ==> has_row_of(spec_mark_one(s, rp, ts), r),
        marked_synced(s, r, ts) ==> marked_synced(spec_mark_one(s, rp, ts), r, ts),
{
    broadcast use vstd::seq_lib::group_filter_ensures;

    let s1 = spec_mark_one(s, rp, ts);
    if rec_kind(r) is None || rec_kind(rp) is None {
        return ;
    }
    if rp.deleted {
        // a purge of another row keeps this row and all its stamps
        match rec_kind(rp) {
            Some(TableKind::Collections) => {
                lemma_filter_elems(s.collections, |c: CollectionRowV| c.id != rp.row_id);
            },
            Some(TableKind::Vocabularies) => {
                lemma_filter_elems(s.vocabularies, |v: VocabularyRowV| v.id != rp.row_id);
            },
            Some(kp) => {
                lemma_filter_elems(s.rows, |g: GenericRowV| !(g.table == kp && g.id == rp.row_id));
            },
            None => {},
        }
        assert forall|i: int|
            0 <= i < s1.collections.len() implies (#[trigger] s1.collections[i]).id == r.row_id
            ==> (s.collections.contains(s1.collections[i]) || s1.collections == s.collections) by {}
        if has_row_of(s, r) {
            match rec_kind(r) {
                Some(TableKind::Collections) => {
                    let w = choose|i: int|
                        0 <= i < s.collections.len() && (#[trigger] s.collections[i]).id
                            == r.row_id;
                    if rec_kind(rp) == Some(TableKind::Collections) {
                        assert(s.collections.filter(
                            |c: CollectionRowV| c.id != rp.row_id,
                        ).contains(s.collections[w]));
                    }
                    assert(col_has(s1.collections, r.row_id));
                },
                Some(TableKind::Vocabularies) => {
                    let w = choose|i: int|
                        0 <= i < s.vocabularies.len() && (#[trigger] s.vocabularies[i]).id
                            == r.row_id;
                    if rec_kind(rp) == Some(TableKind::Vocabularies) {
                        assert(s.vocabularies.filter(
                            |v: VocabularyRowV| v.id != rp.row_id,
                        ).contains(s.vocabularies[w]));
                    }
                    assert(vocab_has(s1.vocabularies, r.row_id));
                },
                Some(kr) => {
                    let w = choose|i: int|
                        0 <= i < s.rows.len() && (#[trigger] s.rows[i]).table == kr && s.rows[i].id
                            == r.row_id;
                    match rec_kind(rp) {
                        Some(TableKind::Collections) => {},
                        Some(TableKind::Vocabularies) => {},
                        Some(kp) => {
                            assert(s.rows.filter(
                                |g: GenericRowV| !(g.table == kp && g.id == rp.row_id),
                            ).contains(s.rows[w]));
                        },
                        None => {},
                    }
                    assert(row_has(s1.rows, kr, r.row_id));
                },
                None => {},
            }
        }
        if marked_synced(s, r, ts) {
            match rec_kind(r) {
                Some(TableKind::Collections) => {
                    assert forall|i: int|
                        0 <= i < s1.collections.len() && (#[trigger] s1.collections[i]).id
                        == r.row_id implies s1.collections[i].meta.synced_at == Some(ts) by {
                        if s1.collections != s.collections {
                            assert(s.collections.contains(s1.collections[i]));
                            let j = choose|j: int|
                                0 <= j < s.collections.len() && #[trigger] s.collections[j]
                                    == s1.collections[i];
                        }
                    }
                },
                Some(TableKind::Vocabularies) => {
                    assert forall|i: int|
                        0 <= i < s1.vocabularies.len() && (#[trigger] s1.vocabularies[i]).id
                        == r.row_id implies s1.vocabularies[i].meta.synced_at == Some(ts) by {
                        if s1.vocabularies != s.vocabularies {
                            assert(s.vocabularies.contains(s1.vocabularies[i]));
                            let j = choose|j: int|
                                0 <= j < s.vocabularies.len() && #[trigger] s.vocabularies[j]
                                    == s1.vocabularies[i];
                        }
                    }
                },
                Some(kr) => {
                    assert forall|i: int|
                        0 <= i < s1.rows.len() && (#[trigger] s1.rows[i]).table == kr
                        && s1.rows[i].id == r.row_id implies s1.rows[i].meta.synced_at == Some(ts) by {
                        if s1.rows != s.rows {
                            assert(s.rows.contains(s1.rows[i]));
                            let j = choose|j: int|
                                0 <= j < s.rows.len() && #[trigger] s.rows[j] == s1.rows[i];
                        }
                    }
                },
                None => {},
            }
        }
    } else {
        // a stamp of another row changes only that row's metadata
        assert forall|i: int|
            0 <= i < s1.collections.len() && (#[trigger] s1.collections[i]).id == r.row_id
            implies i < s.collections.len() && s1.collections[i] == s.collections[i] by {}
        assert forall|i: int|
            0 <= i < s1.vocabularies.len() && (#[trigger] s1.vocabularies[i]).id == r.row_id
            implies i < s.vocabularies.len() && s1.vocabularies[i] == s.vocabularies[i] by {}
        assert forall|i: int|
            0 <= i < s1.rows.len() && (#[trigger] s1.rows[i]).id == r.row_id implies i
            < s.rows.len() && s1.rows[i] == s.rows[i] by {}
        if has_row_of(s, r) {
            match rec_kind(r) {
                Some(TableKind::Collections) => {
                    let w = choose|i: int|
                        0 <= i < s.collections.len() && (#[trigger] s.collections[i]).id
                            == r.row_id;
                    assert(s1.collections[w].id == r.row_id || s1.collections[w]
                        == s.collections[w]);
                    assert(col_has(s1.collections, r.row_id));
                },
                Some(TableKind::Vocabularies) => {
                    let w = choose|i: int|
                        0 <= i < s.vocabularies.len() && (#[trigger] s.vocabularies[i]).id
                            == r.row_id;
                    assert(s1.vocabularies[w].id == r.row_id || s1.vocabularies[w]
                        == s.vocabularies[w]);
                    assert(vocab_has(s1.vocabularies, r.row_id));
                },
                Some(kr) => {
                    let w = choose|i: int|
                        0 <= i < s.rows.len() && (#[trigger] s.rows[i]).table == kr && s.rows[i].id
                            == r.row_id;
                    assert(s1.rows[w].table == kr && s1.rows[w].id == r.row_id || s1.rows[w]
                        == s.rows[w]);
                    assert(row_has(s1.rows, kr, r.row_id));
                },
                None => {},
            }
        }
    }
}

proof fn lemma_mark_fold_preserves_row_facts(s: StoreV, rs: Seq<RecordV>, ts: i64, r: RecordV)
    requires
        forall|j: int| 0 <= j < rs.len() ==> !same_key(#[trigger] rs[j], r),
        has_row_of(s, r),
        marked_synced(s, r, ts),
    ensures
        has_row_of(spec_mark_synced(s, rs, ts), r),
        marked_synced(spec_mark_synced(s, rs, ts), r, ts),
    decreases rs.len(),
{
    if rs.len() > 0 {
        lemma_mark_one_preserves_row_facts(s, rs[0], ts, r);
        assert(forall|j: int|
            0 <= j < rs.drop_first().len() ==> #[trigger] rs.drop_first()[j] == rs[j + 1]);
        lemma_mark_fold_preserves_row_facts(spec_mark_one(s, rs[0], ts), rs.drop_first(), ts, r);
    }
}

/// Once the authority acknowledges a pushed batch, every non-deleted
/// record of the batch whose row the store held has that row stamped with
/// the acknowledgement time: the entity's `synced_at` is set. Together
/// with the dirty-row coverage of the collector, this is the push half of
/// the round trip.
pub proof fn lemma_push_ack_marks_synced(s: StoreV, records: Seq<RecordV>, ts: i64, i: int)
    requires
        distinct_keys(records),
        0 <= i < records.len(),
        !records[i].deleted,
        has_row_of(s, records[i]),
    ensures
        has_row_of(spec_mark_synced(s, records, ts), records[i]),
        marked_synced(spec_mark_synced(s, records, ts), records[i], ts),
    decreases records.len(),
{
    let r0 = records[0];
    let s1 = spec_mark_one(s, r0, ts);
    if i == 0 {
        lemma_mark_one_marks(s, r0, ts);
        assert forall|j: int|
            0 <= j < records.drop_first().len() implies !same_key(
            #[trigger] records.drop_first()[j],
            r0,
        ) by {
            assert(records.drop_first()[j] == records[j + 1]);
            assert(!same_key(records[0], records[j + 1]));
        }
        lemma_mark_fold_preserves_row_facts(s1, records.drop_first(), ts, r0);
    } else {
        assert(!same_key(records[0], records[i]));
        lemma_mark_one_preserves_row_facts(s, r0, ts, records[i]);
        assert forall|a: int, b: int|
            0 <= a < b < records.drop_first().len() implies !same_key(
            #[trigger] records.drop_first()[a],
            #[trigger] records.drop_first()[b],
        ) by {
            assert(records.drop_first()[a] == records[a + 1]);
            assert(records.drop_first()[b] == records[b + 1]);
        }
        assert(records.drop_first()[i - 1] == records[i]);
        lemma_push_ack_marks_synced(s1, records.drop_first(), ts, i - 1);
    }
}

} // verus!
