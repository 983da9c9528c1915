//! End-to-end scenarios over the store, collector, apply engine and
//! checkpoint tracker.

use delta_sync::apply::apply_remote_changes;
use delta_sync::apply::mark_records_synced;
use delta_sync::collect::collect_local_changes;
use delta_sync::engine::{apply_pull, count_pending_changes, get_sync_status, last_sync_timestamp};
use delta_sync::json::{obj_new, obj_push, JsonValue};
use delta_sync::model::{CreateVocabularyRequest, Definition, RelatedWord, WordRelationship, WordType};
use delta_sync::record::{Checkpoint, PullResponse, SyncRecord};
use delta_sync::store::LocalStore;

fn record(table: &str, id: &str, version: i64, deleted: bool, data: JsonValue) -> SyncRecord {
    SyncRecord {
        table_name: table.to_string(),
        row_id: id.to_string(),
        version,
        deleted,
        data,
    }
}

fn collection_payload(name: &str, language: &str) -> JsonValue {
    let mut data = obj_new();
    data = obj_push(data, "name", JsonValue::Str(name.to_string()));
    data = obj_push(data, "description", JsonValue::Str(String::new()));
    data = obj_push(data, "language", JsonValue::Str(language.to_string()));
    data = obj_push(data, "isPublic", JsonValue::Bool(false));
    data
}

fn vocabulary_payload(word: &str, collection_id: &str) -> JsonValue {
    let mut data = obj_new();
    data = obj_push(data, "word", JsonValue::Str(word.to_string()));
    data = obj_push(data, "wordType", JsonValue::Str("noun".to_string()));
    data = obj_push(data, "level", JsonValue::Str("A1".to_string()));
    data = obj_push(data, "language", JsonValue::Str("en".to_string()));
    data = obj_push(data, "collectionId", JsonValue::Str(collection_id.to_string()));
    data
}

fn vocab_request(word: &str, collection_id: &str) -> CreateVocabularyRequest {
    CreateVocabularyRequest {
        word: word.to_string(),
        word_type: WordType::Noun,
        level: "A1".to_string(),
        ipa: String::new(),
        concept: None,
        definitions: Vec::new(),
        example_sentences: Vec::new(),
        topics: Vec::new(),
        tags: Vec::new(),
        related_words: Vec::new(),
        language: "en".to_string(),
        collection_id: collection_id.to_string(),
    }
}

/// One batch of remote records used by the replay tests.
fn remote_batch() -> Vec<SyncRecord> {
    vec![
        record("vocabularies", "v-1", 3, false, vocabulary_payload("tree", "c-1")),
        record("collections", "c-1", 2, false, collection_payload("Nature", "en")),
        record("wordProgress", "wp-1", 1, false, obj_new()),
        record("collections", "c-gone", 1, true, obj_new()),
    ]
}

fn assert_same_observables(a: &LocalStore, b: &LocalStore) {
    assert_eq!(a.collections.len(), b.collections.len());
    assert_eq!(a.vocabularies.len(), b.vocabularies.len());
    assert_eq!(a.rows.len(), b.rows.len());
    for i in 0..a.collections.len() {
        let (x, y) = (&a.collections[i], &b.collections[i]);
        assert_eq!(x.id, y.id);
        assert_eq!(x.name, y.name);
        assert_eq!(x.word_count, y.word_count);
        assert_eq!(x.meta.sync_version, y.meta.sync_version);
        assert_eq!(x.meta.synced_at, y.meta.synced_at);
    }
    for i in 0..a.vocabularies.len() {
        let (x, y) = (&a.vocabularies[i], &b.vocabularies[i]);
        assert_eq!(x.id, y.id);
        assert_eq!(x.word, y.word);
        assert_eq!(x.collection_id, y.collection_id);
        assert_eq!(x.meta.sync_version, y.meta.sync_version);
    }
}

#[test]
fn test_idempotent_pull_replay() {
    let mut once = LocalStore::new();
    let mut twice = LocalStore::new();
    let now = 1_000;
    apply_remote_changes(&mut once, &remote_batch(), Some("me"), now);
    apply_remote_changes(&mut twice, &remote_batch(), Some("me"), now);
    apply_remote_changes(&mut twice, &remote_batch(), Some("me"), now);
    assert_same_observables(&once, &twice);
    // no duplicate rows were created
    assert_eq!(twice.collections.len(), 1);
    assert_eq!(twice.vocabularies.len(), 1);
    assert_eq!(twice.rows.len(), 1);
    // and no aggregate drift
    assert_eq!(twice.collections[0].word_count, 1);
}

#[test]
fn test_dependency_safe_apply() {
    let mut store = LocalStore::new();
    let now = 1_000;
    // A parent collection with one member arrives first.
    apply_remote_changes(
        &mut store,
        &vec![
            record("collections", "parent", 1, false, collection_payload("Birds", "en")),
            record("vocabularies", "child", 1, false, vocabulary_payload("owl", "parent")),
        ],
        None,
        now,
    );
    assert!(store.get_collection("parent").is_some());
    assert!(store.get_vocabulary("child").is_some());
    // A batch mixing the parent delete with the child delete leaves no
    // child behind referencing the vanished parent.
    apply_remote_changes(
        &mut store,
        &vec![
            record("collections", "parent", 2, true, obj_new()),
            record("vocabularies", "child", 2, true, obj_new()),
        ],
        None,
        now + 1,
    );
    assert!(store.get_collection("parent").is_none());
    assert!(store.get_vocabulary("child").is_none());
    for v in &store.vocabularies {
        assert_ne!(v.collection_id, "parent");
    }
}

#[test]
fn test_round_trip() {
    let mut store = LocalStore::new();
    let now = 1_000;
    let cid = store.create_collection("Trip", "", "en", false, now).unwrap();
    let vid = store.create_vocabulary(vocab_request("木", &cid), now).unwrap();
    // freshly created rows are dirty
    assert!(store.get_collection(&cid).unwrap().meta.synced_at.is_none());
    assert!(store.get_vocabulary(&vid).unwrap().meta.synced_at.is_none());

    let batch = collect_local_changes(&store, Some("me"));
    // push reports at least the entity, and includes its row id
    assert!(batch.len() >= 1);
    assert!(batch.iter().any(|r| r.row_id == vid && !r.deleted));
    assert!(batch.iter().any(|r| r.row_id == cid && !r.deleted));

    // the authority acknowledges the push
    let synced_at = now + 5;
    mark_records_synced(&mut store, &batch, synced_at);
    assert_eq!(store.get_collection(&cid).unwrap().meta.synced_at, Some(synced_at));
    assert_eq!(store.get_vocabulary(&vid).unwrap().meta.synced_at, Some(synced_at));
    // nothing is pending afterwards
    assert_eq!(count_pending_changes(&store), 0);
}

#[test]
fn test_tombstone_purge() {
    let mut store = LocalStore::new();
    let now = 1_000;
    let cid = store.create_collection("Purge", "", "en", false, now).unwrap();
    let vid = store.create_vocabulary(vocab_request("dodo", &cid), now).unwrap();
    let batch = collect_local_changes(&store, None);
    mark_records_synced(&mut store, &batch, now + 1);

    // soft-delete: the entity becomes a pending tombstone, still present
    assert!(store.delete_vocabulary(&vid, now + 2));
    assert!(store.get_vocabulary(&vid).is_some());
    assert!(store.get_vocabulary(&vid).unwrap().meta.deleted);

    // the next batch carries the delete with no payload
    let batch = collect_local_changes(&store, None);
    let tomb = batch.iter().find(|r| r.row_id == vid).unwrap();
    assert!(tomb.deleted);

    // once acknowledged, the row is physically gone, not merely flagged
    mark_records_synced(&mut store, &batch, now + 3);
    assert!(store.get_vocabulary(&vid).is_none());
}

#[test]
fn test_checkpoint_resumability() {
    // A change log standing in for the remote authority: each entry knows
    // its position, and a pull from a cursor returns only later entries.
    let log_len = 3;
    let make_entry = |i: usize| match i {
        0 => record("collections", "c-1", 1, false, collection_payload("One", "en")),
        1 => record("vocabularies", "v-1", 1, false, vocabulary_payload("sun", "c-1")),
        _ => record("tags", "t-1", 1, false, obj_new()),
    };
    let pull_from = |cursor: usize| PullResponse {
        records: (cursor..log_len).map(make_entry).collect(),
        checkpoint: Checkpoint::new(
            "2024-01-02T03:04:05+00:00".to_string(),
            log_len.to_string(),
        ),
    };

    let mut store = LocalStore::new();
    let first = pull_from(0);
    assert_eq!(first.records.len(), 3);
    apply_pull(&mut store, &first, None, 1_000);

    // resuming from the returned checkpoint re-delivers nothing
    let (_, cursor) = store.get_checkpoint().unwrap();
    let resumed = pull_from(cursor.parse().unwrap());
    assert!(resumed.records.is_empty());
    let versions_before: Vec<i64> =
        store.vocabularies.iter().map(|v| v.meta.sync_version).collect();
    apply_pull(&mut store, &resumed, None, 2_000);
    let versions_after: Vec<i64> =
        store.vocabularies.iter().map(|v| v.meta.sync_version).collect();
    assert_eq!(versions_before, versions_after);
    assert_eq!(store.vocabularies.len(), 1);
    assert_eq!(store.collections.len(), 1);
}

#[test]
fn test_aggregate_consistency_on_move() {
    let mut store = LocalStore::new();
    let now = 1_000;
    apply_remote_changes(
        &mut store,
        &vec![
            record("collections", "col-a", 1, false, collection_payload("A", "en")),
            record("collections", "col-b", 1, false, collection_payload("B", "en")),
            record("vocabularies", "leaf", 1, false, vocabulary_payload("fern", "col-a")),
        ],
        None,
        now,
    );
    assert_eq!(store.get_collection("col-a").unwrap().word_count, 1);
    assert_eq!(store.get_collection("col-b").unwrap().word_count, 0);

    // a remote update moves the leaf from A to B
    apply_remote_changes(
        &mut store,
        &vec![record("vocabularies", "leaf", 2, false, vocabulary_payload("fern", "col-b"))],
        None,
        now + 1,
    );
    assert_eq!(store.get_collection("col-a").unwrap().word_count, 0);
    assert_eq!(store.get_collection("col-b").unwrap().word_count, 1);
}

#[test]
fn test_two_collections_scenario() {
    let mut store = LocalStore::new();
    let now = 1_000;

    // first collection with one vocabulary, synced
    let c1 = store.create_collection("First", "", "en", false, now).unwrap();
    store.create_vocabulary(vocab_request("ichi", &c1), now).unwrap();
    let batch = collect_local_changes(&store, Some("me"));
    mark_records_synced(&mut store, &batch, now + 1);

    // second collection with one vocabulary, synced afterwards
    let c2 = store.create_collection("Second", "", "en", false, now + 2).unwrap();
    store.create_vocabulary(vocab_request("ni", &c2), now + 2).unwrap();
    let batch = collect_local_changes(&store, Some("me"));
    mark_records_synced(&mut store, &batch, now + 3);

    let collections = store.get_user_collections();
    assert_eq!(collections.len(), 2);
    for c in collections {
        assert!(c.meta.synced_at.is_some());
        assert_eq!(c.word_count, 1);
    }
}

#[test]
fn test_shared_collection_excluded_from_push() {
    let mut store = LocalStore::new();
    let now = 1_000;
    // a collection shared by somebody else arrives from the remote
    let mut data = collection_payload("Theirs", "en");
    data = obj_push(data, "ownerId", JsonValue::Str("somebody-else".to_string()));
    apply_remote_changes(
        &mut store,
        &vec![record("collections", "shared-1", 1, false, data)],
        Some("me"),
        now,
    );
    // an own dirty collection exists beside it
    let mine = store.create_collection("Mine", "", "en", false, now).unwrap();
    // make the shared collection dirty through a local edit
    assert!(store.update_collection("shared-1", "Theirs!", "", false, now + 1));

    let batch = collect_local_changes(&store, Some("me"));
    assert!(batch.iter().any(|r| r.row_id == mine));
    assert!(!batch.iter().any(|r| r.row_id == "shared-1"));
}

#[test]
fn test_checkpoint_validity_and_status() {
    let mut store = LocalStore::new();
    // no checkpoint at all
    assert!(store.get_checkpoint().is_none());
    assert!(last_sync_timestamp(&store).is_none());

    // a partially written checkpoint counts as none
    store.checkpoint_updated_at = Some("2024-01-02T03:04:05+00:00".to_string());
    assert!(store.get_checkpoint().is_none());

    // both entries present: valid, and the timestamp parses
    store.save_checkpoint("2024-01-02T03:04:05+00:00", "cursor-9");
    let (updated_at, id) = store.get_checkpoint().unwrap();
    assert_eq!(updated_at, "2024-01-02T03:04:05+00:00");
    assert_eq!(id, "cursor-9");
    assert_eq!(last_sync_timestamp(&store), Some(1_704_164_645));

    let status = get_sync_status(true, false, Some("https://example.net".to_string()), &store);
    assert!(status.configured);
    assert!(!status.authenticated);
    assert_eq!(status.last_sync_at, Some(1_704_164_645));
    assert_eq!(status.pending_changes, 0);
}

#[test]
fn test_create_collection_ids_and_pending() {
    let mut store = LocalStore::new();
    let id = store.create_collection("Ids", "", "en", false, 1).unwrap();
    // row ids are hyphenated UUIDs: 36 characters
    assert_eq!(id.len(), 36);
    assert_eq!(count_pending_changes(&store), 1);
    store.create_vocabulary(vocab_request("x", &id), 2).unwrap();
    assert_eq!(count_pending_changes(&store), 2);
}

#[test]
fn test_lenient_decode_never_aborts() {
    let mut store = LocalStore::new();
    // a vocabulary record with no payload at all still applies, with
    // every field at its documented default
    apply_remote_changes(
        &mut store,
        &vec![record("vocabularies", "bare", 1, false, obj_new())],
        None,
        1_000,
    );
    let v = store.get_vocabulary("bare").unwrap();
    assert_eq!(v.word, "");
    assert_eq!(v.level, "");
    assert_eq!(v.collection_id, "");
    assert!(matches!(v.word_type, delta_sync::model::WordType::NA));
    assert_eq!(v.meta.sync_version, 1);
}

#[test]
fn test_generic_row_payload_round_trip() {
    let mut store = LocalStore::new();
    let now = 1_000;
    // a word-progress record with a kept-verbatim list and a decimal field
    let mut data = obj_new();
    data = obj_push(data, "vocabularyId", JsonValue::Str("v-9".to_string()));
    data = obj_push(data, "correctCount", JsonValue::Int(4));
    data = obj_push(data, "easinessFactor", JsonValue::Str("2.5".to_string()));
    data = obj_push(
        data,
        "completedModesInCycle",
        JsonValue::Arr(vec![
            JsonValue::Str("flashcard".to_string()),
            JsonValue::Int(3),
            JsonValue::Str("fillword".to_string()),
        ]),
    );
    apply_remote_changes(
        &mut store,
        &vec![record("wordProgress", "wp-9", 2, false, data)],
        None,
        now,
    );
    let row = &store.rows[0];
    assert_eq!(row.id, "wp-9");
    assert_eq!(row.meta.sync_version, 2);
    assert_eq!(row.data.str_or("vocabularyId", ""), "v-9");
    assert_eq!(row.data.int_or("correctCount", 0), 4);
    assert_eq!(row.data.str_or("easinessFactor", ""), "2.5");
    // non-string elements of the mode list were dropped by the schema
    assert_eq!(row.data.str_list("completedModesInCycle"), vec!["flashcard", "fillword"]);
    // defaults filled the fields the record did not carry
    assert_eq!(row.data.int_or("leitnerBox", 0), 1);

    // a locally dirtied row is collected with its stored payload
    apply_remote_changes(
        &mut store,
        &vec![record("collections", "c-k", 1, false, collection_payload("Keep", "en"))],
        None,
        now,
    );
    store.rows[0].meta.synced_at = None;
    let batch = collect_local_changes(&store, None);
    let emitted = batch.iter().find(|r| r.row_id == "wp-9").unwrap();
    assert_eq!(emitted.table_name, "wordProgress");
    assert!(!emitted.deleted);
    assert_eq!(emitted.data.str_or("easinessFactor", ""), "2.5");
}

#[test]
fn test_delete_collection_cascades() {
    let mut store = LocalStore::new();
    let now = 1_000;
    let cid = store.create_collection("Cascade", "", "en", false, now).unwrap();
    let vid = store.create_vocabulary(vocab_request("elm", &cid), now).unwrap();
    let batch = collect_local_changes(&store, None);
    mark_records_synced(&mut store, &batch, now + 1);

    // soft-deleting the collection tombstones its member vocabulary too
    assert!(store.delete_collection(&cid, now + 2));
    assert!(store.get_collection(&cid).unwrap().meta.deleted);
    assert!(store.get_vocabulary(&vid).unwrap().meta.deleted);

    // the next batch carries both tombstones; the acknowledgement purges both
    let batch = collect_local_changes(&store, None);
    assert!(batch.iter().any(|r| r.row_id == cid && r.deleted));
    assert!(batch.iter().any(|r| r.row_id == vid && r.deleted));
    mark_records_synced(&mut store, &batch, now + 3);
    assert!(store.get_collection(&cid).is_none());
    assert!(store.get_vocabulary(&vid).is_none());
    assert!(store.get_user_collections().is_empty());
}

#[test]
fn test_codec_round_trip_via_sync() {
    // a richly filled vocabulary created on one device...
    let mut source = LocalStore::new();
    let now = 1_000;
    let cid = source.create_collection("Rich", "", "en", false, now).unwrap();
    let req = CreateVocabularyRequest {
        word: "light".to_string(),
        word_type: WordType::Noun,
        level: "B2".to_string(),
        ipa: "laɪt".to_string(),
        concept: Some("physics".to_string()),
        definitions: vec![Definition {
            meaning: "electromagnetic radiation".to_string(),
            translation: Some("lumière".to_string()),
            example: None,
        }],
        example_sentences: vec!["The light fades.".to_string()],
        topics: vec!["nature".to_string()],
        tags: vec!["basic".to_string(), "physics".to_string()],
        related_words: vec![RelatedWord {
            word_id: "w-2".to_string(),
            word: "lamp".to_string(),
            relationship: WordRelationship::Related,
        }],
        language: "en".to_string(),
        collection_id: cid.clone(),
    };
    let vid = source.create_vocabulary(req, now).unwrap();

    // ...travels through the codec to a second device unchanged
    let batch = collect_local_changes(&source, Some("me"));
    let mut target = LocalStore::new();
    apply_remote_changes(&mut target, &batch, Some("other"), now + 1);
    let v = target.get_vocabulary(&vid).unwrap();
    assert_eq!(v.word, "light");
    assert!(matches!(v.word_type, WordType::Noun));
    assert_eq!(v.level, "B2");
    assert_eq!(v.ipa, "laɪt");
    assert_eq!(v.concept.as_deref(), Some("physics"));
    assert_eq!(v.language, "en");
    assert_eq!(v.collection_id, cid);
    assert_eq!(v.definitions.len(), 1);
    assert_eq!(v.definitions[0].meaning, "electromagnetic radiation");
    assert_eq!(v.definitions[0].translation.as_deref(), Some("lumière"));
    assert_eq!(v.definitions[0].example, None);
    assert_eq!(v.example_sentences, vec!["The light fades."]);
    assert_eq!(v.topics, vec!["nature"]);
    assert_eq!(v.tags, vec!["basic", "physics"]);
    assert_eq!(v.related_words.len(), 1);
    assert_eq!(v.related_words[0].word, "lamp");
    // the collection arrived too, and the count follows the member
    assert_eq!(target.get_collection(&cid).unwrap().word_count, 1);
    assert_eq!(target.get_collection(&cid).unwrap().name, "Rich");
    // the receiving side is immediately clean: no local dirt from a pull
    assert_eq!(count_pending_changes(&target), 0);
}
