//! Table-name mapping, word spellings, payload access, schema defaults,
//! and the record codec.

use delta_sync::json::{obj_new, obj_push, JsonValue};
use delta_sync::model::{
    get_level_config, parse_word_relationship, parse_word_type, word_relationship_to_string,
    word_type_to_string, WordRelationship, WordType,
};
use delta_sync::schema::{normalize_for_table, table_schema};
use delta_sync::tables::{db_to_sync, from_local, from_wire, sync_to_db, TableKind};

#[test]
fn test_table_name_mapping() {
    assert_eq!(sync_to_db("wordProgress"), "word_progress");
    assert_eq!(sync_to_db("learningSettings"), "learning_settings");
    assert_eq!(sync_to_db("collections"), "collections");
    assert_eq!(db_to_sync("word_progress"), "wordProgress");
    assert_eq!(db_to_sync("practice_sessions"), "practiceSessions");
    assert_eq!(db_to_sync("collections"), "collections");
    // identity fallback for names outside the closed set
    assert_eq!(sync_to_db("somethingElse"), "somethingElse");
    assert_eq!(db_to_sync("something_else"), "something_else");
}

#[test]
fn test_table_name_round_trip() {
    let wire = [
        "topics",
        "tags",
        "collections",
        "userLearningLanguages",
        "collectionSharedUsers",
        "vocabularies",
        "wordProgress",
        "learningSettings",
        "practiceSessions",
        "practiceProgress",
    ];
    for name in wire {
        assert_eq!(db_to_sync(sync_to_db(name)), name);
    }
    assert!(from_wire("wordProgress") == Some(TableKind::WordProgress));
    assert!(from_local("word_progress") == Some(TableKind::WordProgress));
    assert!(from_wire("nonsense").is_none());
}

#[test]
fn test_word_type_spellings() {
    assert!(matches!(parse_word_type("noun"), WordType::Noun));
    assert!(matches!(parse_word_type("phrase"), WordType::Phrase));
    assert!(matches!(parse_word_type("gibberish"), WordType::NA));
    assert_eq!(word_type_to_string(&WordType::Adjective), "adjective");
    assert_eq!(word_type_to_string(&WordType::NA), "n/a");
    let spelled = word_type_to_string(&WordType::Interjection);
    assert!(matches!(parse_word_type(spelled), WordType::Interjection));
}

#[test]
fn test_word_relationship_spellings() {
    assert!(matches!(parse_word_relationship("synonym"), WordRelationship::Synonym));
    assert!(matches!(parse_word_relationship("unknown"), WordRelationship::Related));
    assert_eq!(word_relationship_to_string(&WordRelationship::Antonym), "antonym");
    let spelled = word_relationship_to_string(&WordRelationship::Derivative);
    assert!(matches!(parse_word_relationship(spelled), WordRelationship::Derivative));
}

#[test]
fn test_level_config() {
    assert_eq!(get_level_config("en"), vec!["A1", "A2", "B1", "B2", "C1", "C2"]);
    assert_eq!(get_level_config("ko"), vec!["Basic", "Intermediate", "Advanced"]);
    assert_eq!(get_level_config("xx"), vec!["Beginner", "Intermediate", "Advanced"]);
}

#[test]
fn test_payload_lenient_access() {
    let mut data = obj_new();
    data = obj_push(data, "name", JsonValue::Str("Verbs".to_string()));
    data = obj_push(data, "count", JsonValue::Int(7));
    data = obj_push(data, "flag", JsonValue::Bool(true));
    data = obj_push(data, "wrong", JsonValue::Str("not a number".to_string()));

    assert_eq!(data.str_or("name", ""), "Verbs");
    assert_eq!(data.int_or("count", 0), 7);
    assert!(data.bool_or("flag", false));
    // missing fields resolve to their defaults
    assert_eq!(data.str_or("missing", "fallback"), "fallback");
    assert_eq!(data.int_or("missing", 42), 42);
    assert!(!data.bool_or("missing", false));
    // type-mismatched fields resolve to their defaults too
    assert_eq!(data.int_or("wrong", -1), -1);
    assert!(data.opt_str("count").is_none());
    assert_eq!(data.opt_str("name").as_deref(), Some("Verbs"));
}

#[test]
fn test_schema_defaults() {
    let now = 5_000;
    let empty = obj_new();
    let normalized = normalize_for_table(TableKind::LearningSettings, &empty, now);
    assert_eq!(normalized.str_or("srAlgorithm", "?"), "sm2");
    assert_eq!(normalized.int_or("leitnerBoxCount", 0), 5);
    assert_eq!(normalized.int_or("consecutiveCorrectRequired", 0), 3);
    assert!(normalized.bool_or("showFailedWordsInSession", false));
    assert_eq!(normalized.str_or("reminderTime", "?"), "19:00");
    assert_eq!(normalized.int_or("createdAt", 0), now);
    // absent optional limits stay null
    assert!(normalized.opt_int("newWordsPerDay").is_none());

    let wp = normalize_for_table(TableKind::WordProgress, &empty, now);
    assert_eq!(wp.str_or("language", "?"), "en");
    assert_eq!(wp.int_or("leitnerBox", 0), 1);
    assert_eq!(wp.str_or("easinessFactor", "?"), "2.5");
    assert_eq!(wp.int_or("nextReviewDate", 0), now);
    assert_eq!(wp.str_list("completedModesInCycle").len(), 0);
}

#[test]
fn test_schema_keeps_given_values() {
    let now = 9_000;
    let mut data = obj_new();
    data = obj_push(data, "language", JsonValue::Str("vi".to_string()));
    data = obj_push(data, "correctCount", JsonValue::Int(3));
    let normalized = normalize_for_table(TableKind::WordProgress, &data, now);
    assert_eq!(normalized.str_or("language", "?"), "vi");
    assert_eq!(normalized.int_or("correctCount", 0), 3);
    // unknown fields are not part of the closed schema
    assert!(normalized.get("somethingUnknown").is_none());
    assert!(table_schema(TableKind::Collections).is_empty());
}
