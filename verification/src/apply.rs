//! The apply engine: replays the records of a pull response into the local
//! store. Non-deleted records are applied in ascending dependency rank so
//! that referenced rows exist before their dependents; deleted records are
//! applied in the reverse rank, deepest dependents first. Every step is an
//! upsert or a delete-if-present keyed by row id, which makes a replay of
//! the same response idempotent. A final bookkeeping pass recomputes the
//! denormalized word count of every collection.

use vstd::prelude::*;

use crate::codec::{
    decode_definitions, decode_related_words, spec_collection_inserted, spec_collection_updated,
    spec_shared_by, spec_vocab_inserted, spec_vocab_updated,
};
use crate::model::parse_word_type;
use crate::record::{RecordV, SyncRecord};
use crate::schema::{normalize_for_table, spec_normalize_table};
use crate::store::{
    col_has, count_live_vocabs, row_has, spec_live_vocab_count, store_wf, vocab_has, CollectionRow,
    CollectionRowV, GenericRow, GenericRowV, LocalStore, StoreV, SyncMeta, VocabularyRow,
    VocabularyRowV, MAX_ROWS,
};
use crate::tables::{
    from_wire, spec_delete_rank, spec_from_wire, spec_insert_rank, TableKind, TABLE_COUNT,
};
use crate::util::{lemma_filter_all, lemma_filter_push, lemma_filter_remove, str_eq};

verus! {

broadcast use vstd::std_specs::vec::group_vec_axioms;

// ---------------------------------------------------------------------------
// Ordering by dependency rank.
// ---------------------------------------------------------------------------

/// The rank a record is ordered by: the insert rank of its table for
/// non-deleted records, the reverse rank for deleted ones. Records of
/// unknown tables have no rank and are skipped.
pub open spec fn spec_rank_of(r: RecordV, del: bool) -> Option<u32> {
    match spec_from_wire(r.table_name) {
        Some(k) => Some(
            if del {
                spec_delete_rank(k)
            } else {
                spec_insert_rank(k)
            },
        ),
        None => None,
    }
}

/// The records of one rank, in their delivered order: the tombstone flag
/// must match and the table must be known.
pub open spec fn spec_rank_bucket(records: Seq<RecordV>, del: bool, n: u32) -> Seq<RecordV> {
    records.filter(|r: RecordV| r.deleted == del && spec_rank_of(r, del) == Some(n))
}

/// All records with the given tombstone flag, ordered by rank, delivered
/// order kept within a rank.
pub open spec fn spec_ordered(records: Seq<RecordV>, del: bool) -> Seq<RecordV> {
    spec_rank_bucket(records, del, 0) + spec_rank_bucket(records, del, 1) + spec_rank_bucket(
        records,
        del,
        2,
    ) + spec_rank_bucket(records, del, 3) + spec_rank_bucket(records, del, 4) + spec_rank_bucket(
        records,
        del,
        5,
    ) + spec_rank_bucket(records, del, 6) + spec_rank_bucket(records, del, 7) + spec_rank_bucket(
        records,
        del,
        8,
    ) + spec_rank_bucket(records, del, 9)
}

/// Concatenation of the first `n` rank buckets.
pub open spec fn spec_buckets_upto(records: Seq<RecordV>, del: bool, n: u32) -> Seq<RecordV>
    decreases n,
{
    if n == 0 {
        Seq::empty()
    } else {
        spec_buckets_upto(records, del, (n - 1) as u32) + spec_rank_bucket(
            records,
            del,
            (n - 1) as u32,
        )
    }
}

pub proof fn lemma_buckets_upto_all(records: Seq<RecordV>, del: bool)
    ensures
        spec_buckets_upto(records, del, TABLE_COUNT) == spec_ordered(records, del),
{
    reveal_with_fuel(spec_buckets_upto, 11);
    assert(spec_buckets_upto(records, del, 0) + spec_rank_bucket(records, del, 0)
        =~= spec_rank_bucket(records, del, 0));
    assert(spec_buckets_upto(records, del, TABLE_COUNT) =~= spec_ordered(records, del));
}

/// The executable rank of a record, as ordered.
fn rank_of(rec: &SyncRecord, del: bool) -> (r: Option<u32>)
    ensures
        r == spec_rank_of(rec.deep_view(), del),
{
    match from_wire(rec.table_name.as_str()) {
        Some(k) => Some(
            if del {
                crate::tables::delete_rank(k)
            } else {
                crate::tables::insert_rank(k)
            },
        ),
        None => None,
    }
}

/// Order the records carrying the given tombstone flag by their rank,
/// keeping the delivered order within a rank and skipping unknown tables.
pub fn order_records<'a>(records: &'a Vec<SyncRecord>, del: bool) -> (r: Vec<&'a SyncRecord>)
    ensures
        r.deep_view() == spec_ordered(records.deep_view(), del),
{
    let ghost grecords = records.deep_view();
    let mut out: Vec<&'a SyncRecord> = Vec::new();
    let mut rank: u32 = 0;
    while rank < TABLE_COUNT
        invariant
            rank <= TABLE_COUNT,
            grecords == records.deep_view(),
            out.deep_view() =~= spec_buckets_upto(grecords, del, rank),
        decreases TABLE_COUNT - rank,
    {
        let mut i: usize = 0;
        while i < records.len()
            invariant
                i <= records@.len(),
                rank < TABLE_COUNT,
                grecords == records.deep_view(),
                grecords.len() == records@.len(),
                out.deep_view() =~= spec_buckets_upto(grecords, del, rank) + spec_rank_bucket(
                    grecords.take(i as int),
                    del,
                    rank,
                ),
            decreases records@.len() - i,
        {
            let ghost prev = out.deep_view();
            let rec = &records[i];
            proof {
                assert(grecords.take(i + 1) =~= grecords.take(i as int).push(grecords[i as int]));
                lemma_filter_push(
                    grecords.take(i as int),
                    |r: RecordV| r.deleted == del && spec_rank_of(r, del) == Some(rank),
                    grecords[i as int],
                );
            }
            if rec.deleted == del {
                match rank_of(rec, del) {
                    Some(n) if n == rank => {
                        out.push(rec);
                        proof {
                            assert(out@.len() == prev.len() + 1);
                            assert(out.deep_view()[prev.len() as int] == grecords[i as int]);
                            assert(forall|j: int|
                                0 <= j < prev.len() ==> #[trigger] out.deep_view()[j] == prev[j]);
                            assert(out.deep_view() =~= spec_buckets_upto(grecords, del, rank)
                                + spec_rank_bucket(grecords.take(i + 1), del, rank));
                        }
                    },
                    _ => {
                        proof {
                            assert(out.deep_view() =~= spec_buckets_upto(grecords, del, rank)
                                + spec_rank_bucket(grecords.take(i + 1), del, rank));
                        }
                    },
                }
            } else {
                proof {
                    assert(out.deep_view() =~= spec_buckets_upto(grecords, del, rank)
                        + spec_rank_bucket(grecords.take(i + 1), del, rank));
                }
            }
            i += 1;
        }
        proof {
            assert(grecords.take(grecords.len() as int) =~= grecords);
            assert(spec_buckets_upto(grecords, del, rank) + spec_rank_bucket(grecords, del, rank)
                =~= spec_buckets_upto(grecords, del, (rank + 1) as u32));
        }
        rank += 1;
    }
    proof {
        lemma_buckets_upto_all(grecords, del);
    }
    out
}

// ---------------------------------------------------------------------------
// One apply step, at the specification level.
// ---------------------------------------------------------------------------

/// Upsert of one non-deleted collection record.
pub open spec fn spec_apply_collection_upsert(
    s: StoreV,
    r: RecordV,
    user: Option<Seq<char>>,
    now: i64,
) -> StoreV {
    if col_has(s.collections, r.row_id) {
        StoreV {
            collections: s.collections.map_values(
                |c: CollectionRowV|
                    if c.id == r.row_id {
                        spec_collection_updated(c, r.data, user, r.version, now)
                    } else {
                        c
                    },
            ),
            ..s
        }
    } else {
        StoreV {
            collections: s.collections.push(
                spec_collection_inserted(r.data, r.row_id, user, r.version, now),
            ),
            ..s
        }
    }
}

/// Upsert of one non-deleted vocabulary record.
pub open spec fn spec_apply_vocab_upsert(s: StoreV, r: RecordV, now: i64) -> StoreV {
    if vocab_has(s.vocabularies, r.row_id) {
        StoreV {
            vocabularies: s.vocabularies.map_values(
                |v: VocabularyRowV|
                    if v.id == r.row_id {
                        spec_vocab_updated(v, r.data, r.version, now)
                    } else {
                        v
                    },
            ),
            ..s
        }
    } else {
        StoreV {
            vocabularies: s.vocabularies.push(
                spec_vocab_inserted(r.data, r.row_id, r.version, now),
            ),
            ..s
        }
    }
}

/// Upsert of one non-deleted record of a generic table: the payload is
/// normalized against the table's schema and stored wholesale.
pub open spec fn spec_apply_generic_upsert(s: StoreV, k: TableKind, r: RecordV, now: i64) -> StoreV {
    let nd = spec_normalize_table(k, r.data, now);
    let nm = SyncMeta { sync_version: r.version, synced_at: Some(now), deleted: false, deleted_at: None };
    if row_has(s.rows, k, r.row_id) {
        StoreV {
            rows: s.rows.map_values(
                |g: GenericRowV|
                    if g.table == k && g.id == r.row_id {
                        GenericRowV {
                            data: nd,
                            meta: SyncMeta {
                                sync_version: r.version,
                                synced_at: Some(now),
                                ..g.meta
                            },
                            ..g
                        }
                    } else {
                        g
                    },
            ),
            ..s
        }
    } else {
        StoreV { rows: s.rows.push(GenericRowV { table: k, id: r.row_id, data: nd, meta: nm }), ..s }
    }
}

/// One upsert step: dispatch on the record's table; unknown tables are
/// skipped.
pub open spec fn spec_apply_upsert_one(
    s: StoreV,
    r: RecordV,
    user: Option<Seq<char>>,
    now: i64,
) -> StoreV {
    match spec_from_wire(r.table_name) {
        Some(TableKind::Collections) => spec_apply_collection_upsert(s, r, user, now),
        Some(TableKind::Vocabularies) => spec_apply_vocab_upsert(s, r, now),
        Some(k) => spec_apply_generic_upsert(s, k, r, now),
        None => s,
    }
}

/// One delete step: physically remove the record's row, if present;
/// unknown tables are skipped.
pub open spec fn spec_apply_delete_one(s: StoreV, r: RecordV) -> StoreV {
    match spec_from_wire(r.table_name) {
        Some(TableKind::Collections) => StoreV {
            collections: s.collections.filter(|c: CollectionRowV| c.id != r.row_id),
            ..s
        },
        Some(TableKind::Vocabularies) => StoreV {
            vocabularies: s.vocabularies.filter(|v: VocabularyRowV| v.id != r.row_id),
            ..s
        },
        Some(k) => StoreV {
            rows: s.rows.filter(|g: GenericRowV| !(g.table == k && g.id == r.row_id)),
            ..s
        },
        None => s,
    }
}

/// Fold of the upsert steps over a list of records.
pub open spec fn spec_fold_upserts(
    s: StoreV,
    rs: Seq<RecordV>,
    user: Option<Seq<char>>,
    now: i64,
) -> StoreV
    decreases rs.len(),
{
    if rs.len() == 0 {
        s
    } else {
        spec_fold_upserts(spec_apply_upsert_one(s, rs[0], user, now), rs.drop_first(), user, now)
    }
}

/// Fold of the delete steps over a list of records.
pub open spec fn spec_fold_deletes(s: StoreV, rs: Seq<RecordV>) -> StoreV
    decreases rs.len(),
{
    if rs.len() == 0 {
        s
    } else {
        spec_fold_deletes(spec_apply_delete_one(s, rs[0]), rs.drop_first())
    }
}

pub proof fn lemma_fold_upserts_snoc(
    s: StoreV,
    rs: Seq<RecordV>,
    r: RecordV,
    user: Option<Seq<char>>,
    now: i64,
)
    ensures
        spec_fold_upserts(s, rs.push(r), user, now) == spec_apply_upsert_one(
            spec_fold_upserts(s, rs, user, now),
            r,
            user,
            now,
        ),
    decreases rs.len(),
{
    reveal_with_fuel(spec_fold_upserts, 3);
    if rs.len() == 0 {
        assert(rs.push(r).drop_first() =~= Seq::<RecordV>::empty());
    } else {
        assert(rs.push(r).drop_first() =~= rs.drop_first().push(r));
        lemma_fold_upserts_snoc(
            spec_apply_upsert_one(s, rs[0], user, now),
            rs.drop_first(),
            r,
            user,
            now,
        );
    }
}

pub proof fn lemma_fold_deletes_snoc(s: StoreV, rs: Seq<RecordV>, r: RecordV)
    ensures
        spec_fold_deletes(s, rs.push(r)) == spec_apply_delete_one(spec_fold_deletes(s, rs), r),
    decreases rs.len(),
{
    reveal_with_fuel(spec_fold_deletes, 3);
    if rs.len() == 0 {
        assert(rs.push(r).drop_first() =~= Seq::<RecordV>::empty());
    } else {
        assert(rs.push(r).drop_first() =~= rs.drop_first().push(r));
        lemma_fold_deletes_snoc(spec_apply_delete_one(s, rs[0]), rs.drop_first(), r);
    }
}

/// The bookkeeping pass: every collection's denormalized word count is set
/// to the number of live vocabularies that reference it.
pub open spec fn spec_refresh_counts(s: StoreV) -> StoreV {
    StoreV {
        collections: s.collections.map_values(
            |c: CollectionRowV| CollectionRowV {
                word_count: spec_live_vocab_count(s.vocabularies, c.id) as i64,
                ..c
            },
        ),
        ..s
    }
}

/// The whole apply of one pull response: non-deleted records in ascending
/// dependency rank, then deleted records in the reverse rank, then the
/// bookkeeping pass over the denormalized counts.
pub open spec fn spec_apply_records(
    s: StoreV,
    records: Seq<RecordV>,
    user: Option<Seq<char>>,
    now: i64,
) -> StoreV {
    spec_refresh_counts(
        spec_fold_deletes(
            spec_fold_upserts(s, spec_ordered(records, false), user, now),
            spec_ordered(records, true),
        ),
    )
}

// ---------------------------------------------------------------------------
// One apply step, executably.
// ---------------------------------------------------------------------------

/// The owner recorded on a pulled collection, executably.
fn shared_by_of(data: &crate::json::JsonValue, user: Option<&str>) -> (r: Option<String>)
    ensures
        r.deep_view() == spec_shared_by(data.deep_view(), user.deep_view()),
{
    match data.opt_str("ownerId") {
        Some(o) => {
            let differs = match user {
                Some(u) => !str_eq(o.as_str(), u),
                None => true,
            };
            if !o.as_str().is_empty() && differs {
                Some(o)
            } else {
                None
            }
        },
        None => None,
    }
}

/// Upsert one non-deleted collection record into the store.
fn apply_collection_upsert(store: &mut LocalStore, rec: &SyncRecord, user: Option<&str>, now: i64)
    requires
        store_wf(old(store)@),
        old(store)@.collections.len() < MAX_ROWS,
    ensures
        final(store)@ == spec_apply_collection_upsert(
            old(store)@,
            rec.deep_view(),
            user.deep_view(),
            now,
        ),
        store_wf(final(store)@),
        final(store)@.collections.len() <= old(store)@.collections.len() + 1,
{
    let ghost s0 = store@;
    let ghost rv = rec.deep_view();
    let name = rec.data.str_or("name", "");
    let description = rec.data.str_or("description", "");
    let language = rec.data.str_or("language", "");
    let is_public = rec.data.bool_or("isPublic", false);
    let shared_by = shared_by_of(&rec.data, user);
    match store.find_collection(rec.row_id.as_str()) {
        Some(i) => {
            let c = &store.collections[i];
            let updated = CollectionRow {
                id: c.id.clone(),
                name,
                description,
                language: c.language.clone(),
                shared_by,
                is_public,
                word_count: c.word_count,
                created_at: c.created_at,
                updated_at: now,
                meta: SyncMeta {
                    sync_version: rec.version,
                    synced_at: Some(now),
                    deleted: c.meta.deleted,
                    deleted_at: c.meta.deleted_at,
                },
            };
            store.collections[i] = updated;
            proof {
                assert(col_has(s0.collections, rv.row_id));
                assert(store@.collections =~= s0.collections.map_values(
                    |c: CollectionRowV|
                        if c.id == rv.row_id {
                            spec_collection_updated(c, rv.data, user.deep_view(), rv.version, now)
                        } else {
                            c
                        },
                ));
            }
        },
        None => {
            let fresh = CollectionRow {
                id: rec.row_id.clone(),
                name,
                description,
                language,
                shared_by,
                is_public,
                word_count: 0,
                created_at: now,
                updated_at: now,
                meta: SyncMeta {
                    sync_version: rec.version,
                    synced_at: Some(now),
                    deleted: false,
                    deleted_at: None,
                },
            };
            store.collections.push(fresh);
            proof {
                assert(store@.collections =~= s0.collections.push(
                    spec_collection_inserted(rv.data, rv.row_id, user.deep_view(), rv.version, now),
                ));
            }
        },
    }
}

/// Upsert one non-deleted vocabulary record into the store.
fn apply_vocab_upsert(store: &mut LocalStore, rec: &SyncRecord, now: i64)
    requires
        store_wf(old(store)@),
        old(store)@.vocabularies.len() < MAX_ROWS,
    ensures
        final(store)@ == spec_apply_vocab_upsert(old(store)@, rec.deep_view(), now),
        store_wf(final(store)@),
        final(store)@.vocabularies.len() <= old(store)@.vocabularies.len() + 1,
{
    let ghost s0 = store@;
    let ghost rv = rec.deep_view();
    let word = rec.data.str_or("word", "");
    let word_type_name = rec.data.str_or("wordType", "n/a");
    let word_type = parse_word_type(word_type_name.as_str());
    let level = rec.data.str_or("level", "");
    let ipa = rec.data.str_or("ipa", "");
    let audio_url = rec.data.opt_str("audioUrl");
    let concept = rec.data.opt_str("concept");
    let language = rec.data.str_or("language", "");
    let collection_id = rec.data.str_or("collectionId", "");
    let definitions = decode_definitions(rec.data.arr_or_empty("definitions"));
    let example_sentences = rec.data.str_list("exampleSentences");
    let topics = rec.data.str_list("topics");
    let tags = rec.data.str_list("tags");
    let related_words = decode_related_words(rec.data.arr_or_empty("relatedWords"));
    match store.find_vocabulary(rec.row_id.as_str()) {
        Some(i) => {
            let v = &store.vocabularies[i];
            let updated = VocabularyRow {
                id: v.id.clone(),
                word,
                word_type,
                level,
                ipa,
                audio_url,
                concept,
                language: v.language.clone(),
                collection_id,
                definitions,
                example_sentences,
                topics,
                tags,
                related_words,
                created_at: v.created_at,
                updated_at: now,
                meta: SyncMeta {
                    sync_version: rec.version,
                    synced_at: Some(now),
                    deleted: v.meta.deleted,
                    deleted_at: v.meta.deleted_at,
                },
            };
            store.vocabularies[i] = updated;
            proof {
                assert(vocab_has(s0.vocabularies, rv.row_id));
                assert(store@.vocabularies =~= s0.vocabularies.map_values(
                    |v: VocabularyRowV|
                        if v.id == rv.row_id {
                            spec_vocab_updated(v, rv.data, rv.version, now)
                        } else {
                            v
                        },
                ));
            }
        },
        None => {
            let fresh = VocabularyRow {
                id: rec.row_id.clone(),
                word,
                word_type,
                level,
                ipa,
                audio_url,
                concept,
                language,
                collection_id,
                definitions,
                example_sentences,
                topics,
                tags,
                related_words,
                created_at: now,
                updated_at: now,
                meta: SyncMeta {
                    sync_version: rec.version,
                    synced_at: Some(now),
                    deleted: false,
                    deleted_at: None,
                },
            };
            store.vocabularies.push(fresh);
            proof {
                assert(store@.vocabularies =~= s0.vocabularies.push(
                    spec_vocab_inserted(rv.data, rv.row_id, rv.version, now),
                ));
            }
        },
    }
}

/// Upsert one non-deleted record of a generic table into the store.
fn apply_generic_upsert(store: &mut LocalStore, k: TableKind, rec: &SyncRecord, now: i64)
    requires
        store_wf(old(store)@),
        old(store)@.rows.len() < MAX_ROWS,
        k != TableKind::Collections,
        k != TableKind::Vocabularies,
    ensures
        final(store)@ == spec_apply_generic_upsert(old(store)@, k, rec.deep_view(), now),
        store_wf(final(store)@),
        final(store)@.rows.len() <= old(store)@.rows.len() + 1,
{
    let ghost s0 = store@;
    let ghost rv = rec.deep_view();
    let nd = normalize_for_table(k, &rec.data, now);
    match store.find_row(k, rec.row_id.as_str()) {
        Some(i) => {
            let g = &store.rows[i];
            let updated = GenericRow {
                table: g.table,
                id: g.id.clone(),
                data: nd,
                meta: SyncMeta {
                    sync_version: rec.version,
                    synced_at: Some(now),
                    deleted: g.meta.deleted,
                    deleted_at: g.meta.deleted_at,
                },
            };
            store.rows[i] = updated;
            proof {
                assert(row_has(s0.rows, k, rv.row_id));
                assert(store@.rows =~= s0.rows.map_values(
                    |g: GenericRowV|
                        if g.table == k && g.id == rv.row_id {
                            GenericRowV {
                                data: spec_normalize_table(k, rv.data, now),
                                meta: SyncMeta {
                                    sync_version: rv.version,
                                    synced_at: Some(now),
                                    ..g.meta
                                },
                                ..g
                            }
                        } else {
                            g
                        },
                ));
            }
        },
        None => {
            let fresh = GenericRow {
                table: k,
                id: rec.row_id.clone(),
                data: nd,
                meta: SyncMeta {
                    sync_version: rec.version,
                    synced_at: Some(now),
                    deleted: false,
                    deleted_at: None,
                },
            };
            store.rows.push(fresh);
            proof {
                assert(store@.rows =~= s0.rows.push(
                    GenericRowV {
                        table: k,
                        id: rv.row_id,
                        data: spec_normalize_table(k, rv.data, now),
                        meta: SyncMeta {
                            sync_version: rv.version,
                            synced_at: Some(now),
                            deleted: false,
                            deleted_at: None,
                        },
                    },
                ));
            }
        },
    }
}

/// Apply one upsert step, dispatching on the record's table.
fn apply_upsert_one(store: &mut LocalStore, rec: &SyncRecord, user: Option<&str>, now: i64)
    requires
        store_wf(old(store)@),
        old(store)@.collections.len() < MAX_ROWS,
        old(store)@.vocabularies.len() < MAX_ROWS,
        old(store)@.rows.len() < MAX_ROWS,
    ensures
        final(store)@ == spec_apply_upsert_one(
            old(store)@,
            rec.deep_view(),
            user.deep_view(),
            now,
        ),
        store_wf(final(store)@),
        final(store)@.collections.len() <= old(store)@.collections.len() + 1,
        final(store)@.vocabularies.len() <= old(store)@.vocabularies.len() + 1,
        final(store)@.rows.len() <= old(store)@.rows.len() + 1,
{
    match from_wire(rec.table_name.as_str()) {
        Some(TableKind::Collections) => apply_collection_upsert(store, rec, user, now),
        Some(TableKind::Vocabularies) => apply_vocab_upsert(store, rec, now),
        Some(k) => apply_generic_upsert(store, k, rec, now),
        None => {},
    }
}

/// Apply one delete step: physically remove the row, if present.
fn apply_delete_one(store: &mut LocalStore, rec: &SyncRecord)
    requires
        store_wf(old(store)@),
    ensures
        final(store)@ == spec_apply_delete_one(old(store)@, rec.deep_view()),
        store_wf(final(store)@),
        final(store)@.collections.len() <= old(store)@.collections.len(),
        final(store)@.vocabularies.len() <= old(store)@.vocabularies.len(),
        final(store)@.rows.len() <= old(store)@.rows.len(),
{
    let ghost s0 = store@;
    let ghost rv = rec.deep_view();
    match from_wire(rec.table_name.as_str()) {
        Some(TableKind::Collections) => {
            match store.find_collection(rec.row_id.as_str()) {
                Some(i) => {
                    store.collections.remove(i);
                    proof {
                        lemma_filter_remove(
                            s0.collections,
                            |c: CollectionRowV| c.id != rv.row_id,
                            i as int,
                        );
                        assert(store@.collections =~= s0.collections.filter(
                            |c: CollectionRowV| c.id != rv.row_id,
                        ));
                        s0.collections.remove_ensures(i as int);
                        assert(forall|a: int|
                            0 <= a < store@.collections.len() ==> exists|b: int|
                                0 <= b < s0.collections.len() && #[trigger] store@.collections[a]
                                    == s0.collections[b] && (a < i ==> b == a) && (a >= i ==> b == a
                                    + 1));
                    }
                },
                None => {
                    proof {
                        lemma_filter_all(s0.collections, |c: CollectionRowV| c.id != rv.row_id);
                    }
                },
            }
        },
        Some(TableKind::Vocabularies) => {
            match store.find_vocabulary(rec.row_id.as_str()) {
                Some(i) => {
                    store.vocabularies.remove(i);
                    proof {
                        lemma_filter_remove(
                            s0.vocabularies,
                            |v: VocabularyRowV| v.id != rv.row_id,
                            i as int,
                        );
                        assert(store@.vocabularies =~= s0.vocabularies.filter(
                            |v: VocabularyRowV| v.id != rv.row_id,
                        ));
                        s0.vocabularies.remove_ensures(i as int);
                    }
                },
                None => {
                    proof {
                        lemma_filter_all(s0.vocabularies, |v: VocabularyRowV| v.id != rv.row_id);
                    }
                },
            }
        },
        Some(k) => {
            match store.find_row(k, rec.row_id.as_str()) {
                Some(i) => {
                    store.rows.remove(i);
                    proof {
                        lemma_filter_remove(
                            s0.rows,
                            |g: GenericRowV| !(g.table == k && g.id == rv.row_id),
                            i as int,
                        );
                        assert(store@.rows =~= s0.rows.filter(
                            |g: GenericRowV| !(g.table == k && g.id == rv.row_id),
                        ));
                        s0.rows.remove_ensures(i as int);
                    }
                },
                None => {
                    proof {
                        lemma_filter_all(
                            s0.rows,
                            |g: GenericRowV| !(g.table == k && g.id == rv.row_id),
                        );
                    }
                },
            }
        },
        None => {},
    }
}

/// Recompute the denormalized word count of every collection.
fn refresh_word_counts(store: &mut LocalStore)
    requires
        store_wf(old(store)@),
    ensures
        final(store)@ == spec_refresh_counts(old(store)@),
        store_wf(final(store)@),
{
    let ghost s0 = store@;
    let mut i: usize = 0;
    while i < store.collections.len()
        invariant
            i <= store.collections@.len(),
            store@.collections.len() == s0.collections.len(),
            store@.vocabularies == s0.vocabularies,
            store@.rows == s0.rows,
            store@.checkpoint_updated_at == s0.checkpoint_updated_at,
            store@.checkpoint_id == s0.checkpoint_id,
            store_wf(s0),
            forall|j: int| 0 <= j < i ==> #[trigger] store@.collections[j] == (CollectionRowV {
                word_count: spec_live_vocab_count(s0.vocabularies, s0.collections[j].id) as i64,
                ..s0.collections[j]
            }),
            forall|j: int|
                i <= j < s0.collections.len() ==> #[trigger] store@.collections[j]
                    == s0.collections[j],
        decreases store.collections@.len() - i,
    {
        let id = store.collections[i].id.clone();
        let count = count_live_vocabs(&store.vocabularies, id.as_str());
        proof {
            s0.vocabularies.lemma_filter_len(
                |v: VocabularyRowV| !v.meta.deleted && v.collection_id == id@,
            );
        }
        let ghost pre = store@.collections;
        let c = &store.collections[i];
        let updated = CollectionRow {
            id: c.id.clone(),
            name: c.name.clone(),
            description: c.description.clone(),
            language: c.language.clone(),
            shared_by: (match &c.shared_by {
                Some(sb) => Some(sb.clone()),
                None => None,
            }),
            is_public: c.is_public,
            word_count: count as i64,
            created_at: c.created_at,
            updated_at: c.updated_at,
            meta: c.meta,
        };
        proof {
            assert(store@.collections[i as int] == s0.collections[i as int]);
            assert(id@ == s0.collections[i as int].id);
            assert(count == spec_live_vocab_count(s0.vocabularies, s0.collections[i as int].id));
            assert(updated.deep_view() =~= (CollectionRowV {
                word_count: spec_live_vocab_count(s0.vocabularies, s0.collections[i as int].id) as i64,
                ..s0.collections[i as int]
            }));
        }
        store.collections[i] = updated;
        proof {
            assert(store@.collections[i as int] == updated.deep_view());
            assert(forall|j: int|
                0 <= j < pre.len() && j != i ==> #[trigger] store@.collections[j] == pre[j]);
        }
        i += 1;
    }
    proof {
        assert(store@.collections =~= spec_refresh_counts(s0).collections);
    }
}

/// Replay the records of one pull response into the store: upserts in
/// ascending dependency rank, deletes in the reverse rank, then the
/// bookkeeping pass over the denormalized counts. Replaying the same
/// records again leaves the store unchanged.
pub fn apply_remote_changes(
    store: &mut LocalStore,
    records: &Vec<SyncRecord>,
    current_user_id: Option<&str>,
    now: i64,
)
    requires
        store_wf(old(store)@),
        old(store)@.collections.len() + records@.len() <= MAX_ROWS,
        old(store)@.vocabularies.len() + records@.len() <= MAX_ROWS,
        old(store)@.rows.len() + records@.len() <= MAX_ROWS,
    ensures
        final(store)@ == spec_apply_records(
            old(store)@,
            records.deep_view(),
            current_user_id.deep_view(),
            now,
        ),
        store_wf(final(store)@),
{
    let ghost s0 = store@;
    let ghost guser = current_user_id.deep_view();
    let ghost grecords = records.deep_view();
    proof {
        lemma_ordered_len(grecords, false);
        lemma_ordered_len(grecords, true);
    }
    let ups = order_records(records, false);
    let dels = order_records(records, true);
    let mut i: usize = 0;
    while i < ups.len()
        invariant
            i <= ups@.len(),
            ups.deep_view() == spec_ordered(grecords, false),
            ups.deep_view().len() == ups@.len(),
            ups@.len() <= grecords.len(),
            grecords == records.deep_view(),
            guser == current_user_id.deep_view(),
            store_wf(store@),
            store@ == spec_fold_upserts(s0, ups.deep_view().take(i as int), guser, now),
            store@.collections.len() <= s0.collections.len() + i,
            store@.vocabularies.len() <= s0.vocabularies.len() + i,
            store@.rows.len() <= s0.rows.len() + i,
            store_wf(s0),
            s0.collections.len() + grecords.len() <= MAX_ROWS,
            s0.vocabularies.len() + grecords.len() <= MAX_ROWS,
            s0.rows.len() + grecords.len() <= MAX_ROWS,
        decreases ups@.len() - i,
    {
        let ghost pre = store@;
        apply_upsert_one(store, ups[i], current_user_id, now);
        proof {
            assert(ups.deep_view().take(i + 1) =~= ups.deep_view().take(i as int).push(
                ups.deep_view()[i as int],
            ));
            lemma_fold_upserts_snoc(
                s0,
                ups.deep_view().take(i as int),
                ups.deep_view()[i as int],
                guser,
                now,
            );
        }
        i += 1;
    }
    proof {
        assert(ups.deep_view().take(ups@.len() as int) =~= ups.deep_view());
    }
    let ghost s1 = store@;
    let mut i: usize = 0;
    while i < dels.len()
        invariant
            i <= dels@.len(),
            dels.deep_view() == spec_ordered(grecords, true),
            dels.deep_view().len() == dels@.len(),
            store_wf(store@),
            store@ == spec_fold_deletes(s1, dels.deep_view().take(i as int)),
        decreases dels@.len() - i,
    {
        apply_delete_one(store, dels[i]);
        proof {
            assert(dels.deep_view().take(i + 1) =~= dels.deep_view().take(i as int).push(
                dels.deep_view()[i as int],
            ));
            lemma_fold_deletes_snoc(s1, dels.deep_view().take(i as int), dels.deep_view()[i as int]);
        }
        i += 1;
    }
    proof {
        assert(dels.deep_view().take(dels@.len() as int) =~= dels.deep_view());
    }
    refresh_word_counts(store);
}

/// At most one rank bucket accepts each record, so ordering never grows
/// the list.
proof fn lemma_ordered_len(records: Seq<RecordV>, del: bool)
    ensures
        spec_ordered(records, del).len() <= records.len(),
    decreases records.len(),
{
    if records.len() == 0 {
        assert forall|n: u32| spec_rank_bucket(records, del, n).len() == 0 by {
            reveal(Seq::filter);
        }
    } else {
        let prefix = records.drop_last();
        let last = records.last();
        lemma_ordered_len(prefix, del);
        assert(prefix.push(last) =~= records);
        assert forall|n: u32| #[trigger] spec_rank_bucket(records, del, n).len()
            <= spec_rank_bucket(prefix, del, n).len() + (if last.deleted == del && spec_rank_of(
            last,
            del,
        ) == Some(n) {
            1int
        } else {
            0int
        }) by {
            lemma_filter_push(
                prefix,
                |r: RecordV| r.deleted == del && spec_rank_of(r, del) == Some(n),
                last,
            );
        }
    }
}


// ---------------------------------------------------------------------------
// Marking the outbound batch synced after a confirmed push.
// ---------------------------------------------------------------------------

/// The next revision after an acknowledgement; saturates at the top of the
/// range instead of overflowing.
pub open spec fn spec_bump(v: i64) -> i64 {
    if v < i64::MAX {
        (v + 1) as i64
    } else {
        v
    }
}

/// Metadata of a row whose push was acknowledged.
pub open spec fn spec_meta_acked(m: SyncMeta, ts: i64) -> SyncMeta {
    SyncMeta { sync_version: spec_bump(m.sync_version), synced_at: Some(ts), ..m }
}

/// One record of the confirmed batch marked off: a tombstone is physically
/// purged; any other record's row is stamped acknowledged with a bumped
/// revision.
pub open spec fn spec_mark_one(s: StoreV, r: RecordV, ts: i64) -> StoreV {
    if r.deleted {
        spec_apply_delete_one(s, r)
    } else {
        match spec_from_wire(r.table_name) {
            Some(TableKind::Collections) => StoreV {
                collections: s.collections.map_values(
                    |c: CollectionRowV|
                        if c.id == r.row_id {
                            CollectionRowV { meta: spec_meta_acked(c.meta, ts), ..c }
                        } else {
                            c
                        },
                ),
                ..s
            },
            Some(TableKind::Vocabularies) => StoreV {
                vocabularies: s.vocabularies.map_values(
                    |v: VocabularyRowV|
                        if v.id == r.row_id {
                            VocabularyRowV { meta: spec_meta_acked(v.meta, ts), ..v }
                        } else {
                            v
                        },
                ),
                ..s
            },
            Some(k) => StoreV {
                rows: s.rows.map_values(
                    |g: GenericRowV|
                        if g.table == k && g.id == r.row_id {
                            GenericRowV { meta: spec_meta_acked(g.meta, ts), ..g }
                        } else {
                            g
                        },
                ),
                ..s
            },
            None => s,
        }
    }
}

/// Fold of the mark-off steps over the confirmed batch.
pub open spec fn spec_mark_synced(s: StoreV, rs: Seq<RecordV>, ts: i64) -> StoreV
    decreases rs.len(),
{
    if rs.len() == 0 {
        s
    } else {
        spec_mark_synced(spec_mark_one(s, rs[0], ts), rs.drop_first(), ts)
    }
}

pub proof fn lemma_mark_synced_snoc(s: StoreV, rs: Seq<RecordV>, r: RecordV, ts: i64)
    ensures
        spec_mark_synced(s, rs.push(r), ts) == spec_mark_one(spec_mark_synced(s, rs, ts), r, ts),
    decreases rs.len(),
{
    reveal_with_fuel(spec_mark_synced, 3);
    if rs.len() == 0 {
        assert(rs.push(r).drop_first() =~= Seq::<RecordV>::empty());
    } else {
        assert(rs.push(r).drop_first() =~= rs.drop_first().push(r));
        lemma_mark_synced_snoc(spec_mark_one(s, rs[0], ts), rs.drop_first(), r, ts);
    }
}

/// Mark one record of the confirmed batch off, executably.
fn mark_one(store: &mut LocalStore, rec: &SyncRecord, ts: i64)
    requires
        store_wf(old(store)@),
    ensures
        final(store)@ == spec_mark_one(old(store)@, rec.deep_view(), ts),
        store_wf(final(store)@),
{
    let ghost s0 = store@;
    let ghost rv = rec.deep_view();
    if rec.deleted {
        apply_delete_one(store, rec);
    } else {
        match from_wire(rec.table_name.as_str()) {
            Some(TableKind::Collections) => {
                match store.find_collection(rec.row_id.as_str()) {
                    Some(i) => {
                        proof {
                            assert(store@.collections[i as int] == s0.collections[i as int]);
                        }
                        let m = store.collections[i].meta;
                        let bumped: i64 = if m.sync_version < i64::MAX {
                            m.sync_version + 1
                        } else {
                            m.sync_version
                        };
                        store.set_collection_meta(
                            i,
                            SyncMeta { sync_version: bumped, synced_at: Some(ts), ..m },
                        );
                        proof {
                            assert(store@.collections =~= spec_mark_one(s0, rv, ts).collections);
                            assert(store@ =~= spec_mark_one(s0, rv, ts));
                        }
                    },
                    None => {
                        proof {
                            assert(store@.collections =~= spec_mark_one(s0, rv, ts).collections);
                            assert(store@ =~= spec_mark_one(s0, rv, ts));
                        }
                    },
                }
            },
            Some(TableKind::Vocabularies) => {
                match store.find_vocabulary(rec.row_id.as_str()) {
                    Some(i) => {
                        proof {
                            assert(store@.vocabularies[i as int] == s0.vocabularies[i as int]);
                        }
                        let m = store.vocabularies[i].meta;
                        let bumped: i64 = if m.sync_version < i64::MAX {
                            m.sync_version + 1
                        } else {
                            m.sync_version
                        };
                        store.set_vocab_meta(
                            i,
                            SyncMeta { sync_version: bumped, synced_at: Some(ts), ..m },
                        );
                        proof {
                            assert(store@.vocabularies =~= spec_mark_one(s0, rv, ts).vocabularies);
                            assert(store@ =~= spec_mark_one(s0, rv, ts));
                        }
                    },
                    None => {
                        proof {
                            assert(store@.vocabularies =~= spec_mark_one(s0, rv, ts).vocabularies);
                            assert(store@ =~= spec_mark_one(s0, rv, ts));
                        }
                    },
                }
            },
            Some(k) => {
                match store.find_row(k, rec.row_id.as_str()) {
                    Some(i) => {
                        proof {
                            assert(store@.rows[i as int] == s0.rows[i as int]);
                        }
                        let m = store.rows[i].meta;
                        let bumped: i64 = if m.sync_version < i64::MAX {
                            m.sync_version + 1
                        } else {
                            m.sync_version
                        };
                        store.set_row_meta(
                            i,
                            SyncMeta { sync_version: bumped, synced_at: Some(ts), ..m },
                        );
                        proof {
                            assert(store@.rows =~= spec_mark_one(s0, rv, ts).rows);
                            assert(store@ =~= spec_mark_one(s0, rv, ts));
                        }
                    },
                    None => {
                        proof {
                            assert(store@.rows =~= spec_mark_one(s0, rv, ts).rows);
                            assert(store@ =~= spec_mark_one(s0, rv, ts));
                        }
                    },
                }
            },
            None => {},
        }
    }
}

/// After a confirmed push, mark every record of the pushed batch synced:
/// a non-deleted record's row gets `synced_at` set and its revision
/// bumped; a tombstone's row is physically purged.
pub fn mark_records_synced(store: &mut LocalStore, records: &Vec<SyncRecord>, synced_at: i64)
    requires
        store_wf(old(store)@),
    ensures
        final(store)@ == spec_mark_synced(old(store)@, records.deep_view(), synced_at),
        store_wf(final(store)@),
{
    let ghost s0 = store@;
    let ghost grecords = records.deep_view();
    let mut i: usize = 0;
    while i < records.len()
        invariant
            i <= records@.len(),
            grecords == records.deep_view(),
            grecords.len() == records@.len(),
            store_wf(store@),
            store@ == spec_mark_synced(s0, grecords.take(i as int), synced_at),
        decreases records@.len() - i,
    {
        mark_one(store, &records[i], synced_at);
        proof {
            assert(grecords.take(i + 1) =~= grecords.take(i as int).push(grecords[i as int]));
            lemma_mark_synced_snoc(s0, grecords.take(i as int), grecords[i as int], synced_at);
        }
        i += 1;
    }
    proof {
        assert(grecords.take(grecords.len() as int) =~= grecords);
    }
}

} // verus!
