//! The closed set of synced table kinds, their wire and local names, and
//! the dependency rank that sequences apply operations.

use vstd::prelude::*;

use crate::util::str_eq;

verus! {

/// One variant per synced table. The order of the variants follows the
/// dependency direction of the schema's foreign keys: master/lookup tables
/// first, then top-level collections, membership rows, leaf entities and
/// finally records that reference leaf entities.
#[derive(Clone, Copy, Debug, PartialEq, Eq, Structural)]
pub enum TableKind {
    Topics,
    Tags,
    Collections,
    UserLearningLanguages,
    CollectionSharedUsers,
    Vocabularies,
    WordProgress,
    LearningSettings,
    PracticeSessions,
    PracticeProgress,
}

/// Number of synced tables.
pub const TABLE_COUNT: u32 = 10;

pub open spec fn spec_wire_name(k: TableKind) -> Seq<char> {
    match k {
        TableKind::Topics => "topics"@,
        TableKind::Tags => "tags"@,
        TableKind::Collections => "collections"@,
        TableKind::UserLearningLanguages => "userLearningLanguages"@,
        TableKind::CollectionSharedUsers => "collectionSharedUsers"@,
        TableKind::Vocabularies => "vocabularies"@,
        TableKind::WordProgress => "wordProgress"@,
        TableKind::LearningSettings => "learningSettings"@,
        TableKind::PracticeSessions => "practiceSessions"@,
        TableKind::PracticeProgress => "practiceProgress"@,
    }
}

pub open spec fn spec_local_name(k: TableKind) -> Seq<char> {
    match k {
        TableKind::Topics => "topics"@,
        TableKind::Tags => "tags"@,
        TableKind::Collections => "collections"@,
        TableKind::UserLearningLanguages => "user_learning_languages"@,
        TableKind::CollectionSharedUsers => "collection_shared_users"@,
        TableKind::Vocabularies => "vocabularies"@,
        TableKind::WordProgress => "word_progress"@,
        TableKind::LearningSettings => "learning_settings"@,
        TableKind::PracticeSessions => "practice_sessions"@,
        TableKind::PracticeProgress => "practice_progress"@,
    }
}

pub open spec fn spec_from_wire(s: Seq<char>) -> Option<TableKind> {
    if s == spec_wire_name(TableKind::Topics) {
        Some(TableKind::Topics)
    } else if s == spec_wire_name(TableKind::Tags) {
        Some(TableKind::Tags)
    } else if s == spec_wire_name(TableKind::Collections) {
        Some(TableKind::Collections)
    } else if s == spec_wire_name(TableKind::UserLearningLanguages) {
        Some(TableKind::UserLearningLanguages)
    } else if s == spec_wire_name(TableKind::CollectionSharedUsers) {
        Some(TableKind::CollectionSharedUsers)
    } else if s == spec_wire_name(TableKind::Vocabularies) {
        Some(TableKind::Vocabularies)
    } else if s == spec_wire_name(TableKind::WordProgress) {
        Some(TableKind::WordProgress)
    } else if s == spec_wire_name(TableKind::LearningSettings) {
        Some(TableKind::LearningSettings)
    } else if s == spec_wire_name(TableKind::PracticeSessions) {
        Some(TableKind::PracticeSessions)
    } else if s == spec_wire_name(TableKind::PracticeProgress) {
        Some(TableKind::PracticeProgress)
    } else {
        None
    }
}

pub open spec fn spec_from_local(s: Seq<char>) -> Option<TableKind> {
    if s == spec_local_name(TableKind::Topics) {
        Some(TableKind::Topics)
    } else if s == spec_local_name(TableKind::Tags) {
        Some(TableKind::Tags)
    } else if s == spec_local_name(TableKind::Collections) {
        Some(TableKind::Collections)
    } else if s == spec_local_name(TableKind::UserLearningLanguages) {
        Some(TableKind::UserLearningLanguages)
    } else if s == spec_local_name(TableKind::CollectionSharedUsers) {
        Some(TableKind::CollectionSharedUsers)
    } else if s == spec_local_name(TableKind::Vocabularies) {
        Some(TableKind::Vocabularies)
    } else if s == spec_local_name(TableKind::WordProgress) {
        Some(TableKind::WordProgress)
    } else if s == spec_local_name(TableKind::LearningSettings) {
        Some(TableKind::LearningSettings)
    } else if s == spec_local_name(TableKind::PracticeSessions) {
        Some(TableKind::PracticeSessions)
    } else if s == spec_local_name(TableKind::PracticeProgress) {
        Some(TableKind::PracticeProgress)
    } else {
        None
    }
}

/// Wire-protocol (camelCase) name of a synced table.
pub fn wire_name(k: TableKind) -> (r: &'static str)
    ensures
        r@ == spec_wire_name(k),
{
    match k {
        TableKind::Topics => "topics",
        TableKind::Tags => "tags",
        TableKind::Collections => "collections",
        TableKind::UserLearningLanguages => "userLearningLanguages",
        TableKind::CollectionSharedUsers => "collectionSharedUsers",
        TableKind::Vocabularies => "vocabularies",
        TableKind::WordProgress => "wordProgress",
        TableKind::LearningSettings => "learningSettings",
        TableKind::PracticeSessions => "practiceSessions",
        TableKind::PracticeProgress => "practiceProgress",
    }
}

/// Local-storage (snake_case) name of a synced table.
pub fn local_name(k: TableKind) -> (r: &'static str)
    ensures
        r@ == spec_local_name(k),
{
    match k {
        TableKind::Topics => "topics",
        TableKind::Tags => "tags",
        TableKind::Collections => "collections",
        TableKind::UserLearningLanguages => "user_learning_languages",
        TableKind::CollectionSharedUsers => "collection_shared_users",
        TableKind::Vocabularies => "vocabularies",
        TableKind::WordProgress => "word_progress",
        TableKind::LearningSettings => "learning_settings",
        TableKind::PracticeSessions => "practice_sessions",
        TableKind::PracticeProgress => "practice_progress",
    }
}

/// Parse a wire-protocol table name into its table kind.
pub fn from_wire(s: &str) -> (r: Option<TableKind>)
    ensures
        r == spec_from_wire(s@),
{
    if str_eq(s, "topics") {
        Some(TableKind::Topics)
    } else if str_eq(s, "tags") {
        Some(TableKind::Tags)
    } else if str_eq(s, "collections") {
        Some(TableKind::Collections)
    } else if str_eq(s, "userLearningLanguages") {
        Some(TableKind::UserLearningLanguages)
    } else if str_eq(s, "collectionSharedUsers") {
        Some(TableKind::CollectionSharedUsers)
    } else if str_eq(s, "vocabularies") {
        Some(TableKind::Vocabularies)
    } else if str_eq(s, "wordProgress") {
        Some(TableKind::WordProgress)
    } else if str_eq(s, "learningSettings") {
        Some(TableKind::LearningSettings)
    } else if str_eq(s, "practiceSessions") {
        Some(TableKind::PracticeSessions)
    } else if str_eq(s, "practiceProgress") {
        Some(TableKind::PracticeProgress)
    } else {
        None
    }
}

/// Parse a local-storage table name into its table kind.
pub fn from_local(s: &str) -> (r: Option<TableKind>)
    ensures
        r == spec_from_local(s@),
{
    if str_eq(s, "topics") {
        Some(TableKind::Topics)
    } else if str_eq(s, "tags") {
        Some(TableKind::Tags)
    } else if str_eq(s, "collections") {
        Some(TableKind::Collections)
    } else if str_eq(s, "user_learning_languages") {
        Some(TableKind::UserLearningLanguages)
    } else if str_eq(s, "collection_shared_users") {
        Some(TableKind::CollectionSharedUsers)
    } else if str_eq(s, "vocabularies") {
        Some(TableKind::Vocabularies)
    } else if str_eq(s, "word_progress") {
        Some(TableKind::WordProgress)
    } else if str_eq(s, "learning_settings") {
        Some(TableKind::LearningSettings)
    } else if str_eq(s, "practice_sessions") {
        Some(TableKind::PracticeSessions)
    } else if str_eq(s, "practice_progress") {
        Some(TableKind::PracticeProgress)
    } else {
        None
    }
}

pub open spec fn spec_sync_to_db(s: Seq<char>) -> Seq<char> {
    match spec_from_wire(s) {
        Some(k) => spec_local_name(k),
        None => s,
    }
}

pub open spec fn spec_db_to_sync(s: Seq<char>) -> Seq<char> {
    match spec_from_local(s) {
        Some(k) => spec_wire_name(k),
        None => s,
    }
}

/// Convert a wire-protocol table name to a local storage table name;
/// names that are spelled identically on both sides pass through unchanged.
pub fn sync_to_db<'a>(sync_name: &'a str) -> (r: &'a str)
    ensures
        r@ == spec_sync_to_db(sync_name@),
{
    match from_wire(sync_name) {
        Some(k) => local_name(k),
        None => sync_name,
    }
}

/// Convert a local storage table name to a wire-protocol table name;
/// names that are spelled identically on both sides pass through unchanged.
pub fn db_to_sync<'a>(db_name: &'a str) -> (r: &'a str)
    ensures
        r@ == spec_db_to_sync(db_name@),
{
    match from_local(db_name) {
        Some(k) => wire_name(k),
        None => db_name,
    }
}

/// Dependency rank used to order the apply of non-deleted records:
/// lower ranks must exist before higher ranks may reference them.
pub open spec fn spec_insert_rank(k: TableKind) -> u32 {
    match k {
        TableKind::Topics => 0,
        TableKind::Tags => 1,
        TableKind::Collections => 2,
        TableKind::UserLearningLanguages => 3,
        TableKind::CollectionSharedUsers => 4,
        TableKind::Vocabularies => 5,
        TableKind::WordProgress => 6,
        TableKind::LearningSettings => 7,
        TableKind::PracticeSessions => 8,
        TableKind::PracticeProgress => 9,
    }
}

/// Rank used to order the apply of deleted records: the exact reverse of
/// the insert rank, so that the deepest dependents are removed first.
pub open spec fn spec_delete_rank(k: TableKind) -> u32 {
    (TABLE_COUNT - 1 - spec_insert_rank(k)) as u32
}

pub fn insert_rank(k: TableKind) -> (r: u32)
    ensures
        r == spec_insert_rank(k),
{
    match k {
        TableKind::Topics => 0,
        TableKind::Tags => 1,
        TableKind::Collections => 2,
        TableKind::UserLearningLanguages => 3,
        TableKind::CollectionSharedUsers => 4,
        TableKind::Vocabularies => 5,
        TableKind::WordProgress => 6,
        TableKind::LearningSettings => 7,
        TableKind::PracticeSessions => 8,
        TableKind::PracticeProgress => 9,
    }
}

pub fn delete_rank(k: TableKind) -> (r: u32)
    ensures
        r == spec_delete_rank(k),
{
    TABLE_COUNT - 1 - insert_rank(k)
}

/// The two name maps are inverse to each other on the closed set of
/// synced tables, and every table kind is reachable from its names.
pub proof fn lemma_table_names_invert(k: TableKind)
    ensures
        spec_from_wire(spec_wire_name(k)) == Some(k),
        spec_from_local(spec_local_name(k)) == Some(k),
        spec_db_to_sync(spec_sync_to_db(spec_wire_name(k))) == spec_wire_name(k),
        spec_sync_to_db(spec_db_to_sync(spec_local_name(k))) == spec_local_name(k),
{
    reveal_strlit("topics");
    reveal_strlit("tags");
    reveal_strlit("collections");
    reveal_strlit("userLearningLanguages");
    reveal_strlit("collectionSharedUsers");
    reveal_strlit("vocabularies");
    reveal_strlit("wordProgress");
    reveal_strlit("learningSettings");
    reveal_strlit("practiceSessions");
    reveal_strlit("practiceProgress");
    reveal_strlit("user_learning_languages");
    reveal_strlit("collection_shared_users");
    reveal_strlit("word_progress");
    reveal_strlit("learning_settings");
    reveal_strlit("practice_sessions");
    reveal_strlit("practice_progress");
    assert(!("collectionSharedUsers"@ =~= "learningSettings"@));
    assert(!("collectionSharedUsers"@ =~= "practiceProgress"@));
    assert(!("collectionSharedUsers"@ =~= "practiceSessions"@));
    assert(!("collectionSharedUsers"@ =~= "vocabularies"@));
    assert(!("collectionSharedUsers"@ =~= "wordProgress"@));
    assert(!("collection_shared_users"@ =~= "learning_settings"@));
    assert(!("collection_shared_users"@ =~= "practice_progress"@));
    assert(!("collection_shared_users"@ =~= "practice_sessions"@));
    assert(!("collection_shared_users"@ =~= "vocabularies"@));
    assert(!("collection_shared_users"@ =~= "word_progress"@));
    assert(!("collections"@ =~= "collectionSharedUsers"@));
    assert(!("collections"@ =~= "collection_shared_users"@));
    assert(!("collections"@ =~= "learningSettings"@));
    assert(!("collections"@ =~= "learning_settings"@));
    assert(!("collections"@ =~= "practiceProgress"@));
    assert(!("collections"@ =~= "practiceSessions"@));
    assert(!("collections"@ =~= "practice_progress"@));
    assert(!("collections"@ =~= "practice_sessions"@));
    assert(!("collections"@ =~= "userLearningLanguages"@));
    assert(!("collections"@ =~= "user_learning_languages"@));
    assert(!("collections"@ =~= "vocabularies"@));
    assert(!("collections"@ =~= "wordProgress"@));
    assert(!("collections"@ =~= "word_progress"@));
    assert("learningSettings"@[0] != "practiceProgress"@[0]);
    assert(!("learningSettings"@ =~= "practiceProgress"@));
    assert("learningSettings"@[0] != "practiceSessions"@[0]);
    assert(!("learningSettings"@ =~= "practiceSessions"@));
    assert("learning_settings"@[0] != "practice_progress"@[0]);
    assert(!("learning_settings"@ =~= "practice_progress"@));
    assert("learning_settings"@[0] != "practice_sessions"@[0]);
    assert(!("learning_settings"@ =~= "practice_sessions"@));
    assert("practiceSessions"@[8] != "practiceProgress"@[8]);
    assert(!("practiceSessions"@ =~= "practiceProgress"@));
    assert("practice_sessions"@[9] != "practice_progress"@[9]);
    assert(!("practice_sessions"@ =~= "practice_progress"@));
    assert(!("tags"@ =~= "collectionSharedUsers"@));
    assert(!("tags"@ =~= "collection_shared_users"@));
    assert(!("tags"@ =~= "collections"@));
    assert(!("tags"@ =~= "learningSettings"@));
    assert(!("tags"@ =~= "learning_settings"@));
    assert(!("tags"@ =~= "practiceProgress"@));
    assert(!("tags"@ =~= "practiceSessions"@));
    assert(!("tags"@ =~= "practice_progress"@));
    assert(!("tags"@ =~= "practice_sessions"@));
    assert(!("tags"@ =~= "userLearningLanguages"@));
    assert(!("tags"@ =~= "user_learning_languages"@));
    assert(!("tags"@ =~= "vocabularies"@));
    assert(!("tags"@ =~= "wordProgress"@));
    assert(!("tags"@ =~= "word_progress"@));
    assert(!("topics"@ =~= "collectionSharedUsers"@));
    assert(!("topics"@ =~= "collection_shared_users"@));
    assert(!("topics"@ =~= "collections"@));
    assert(!("topics"@ =~= "learningSettings"@));
    assert(!("topics"@ =~= "learning_settings"@));
    assert(!("topics"@ =~= "practiceProgress"@));
    assert(!("topics"@ =~= "practiceSessions"@));
    assert(!("topics"@ =~= "practice_progress"@));
    assert(!("topics"@ =~= "practice_sessions"@));
    assert(!("topics"@ =~= "tags"@));
    assert(!("topics"@ =~= "userLearningLanguages"@));
    assert(!("topics"@ =~= "user_learning_languages"@));
    assert(!("topics"@ =~= "vocabularies"@));
    assert(!("topics"@ =~= "wordProgress"@));
    assert(!("topics"@ =~= "word_progress"@));
    assert("userLearningLanguages"@[0] != "collectionSharedUsers"@[0]);
    assert(!("userLearningLanguages"@ =~= "collectionSharedUsers"@));
    assert(!("userLearningLanguages"@ =~= "learningSettings"@));
    assert(!("userLearningLanguages"@ =~= "practiceProgress"@));
    assert(!("userLearningLanguages"@ =~= "practiceSessions"@));
    assert(!("userLearningLanguages"@ =~= "vocabularies"@));
    assert(!("userLearningLanguages"@ =~= "wordProgress"@));
    assert("user_learning_languages"@[0] != "collection_shared_users"@[0]);
    assert(!("user_learning_languages"@ =~= "collection_shared_users"@));
    assert(!("user_learning_languages"@ =~= "learning_settings"@));
    assert(!("user_learning_languages"@ =~= "practice_progress"@));
    assert(!("user_learning_languages"@ =~= "practice_sessions"@));
    assert(!("user_learning_languages"@ =~= "vocabularies"@));
    assert(!("user_learning_languages"@ =~= "word_progress"@));
    assert(!("vocabularies"@ =~= "learningSettings"@));
    assert(!("vocabularies"@ =~= "learning_settings"@));
    assert(!("vocabularies"@ =~= "practiceProgress"@));
    assert(!("vocabularies"@ =~= "practiceSessions"@));
    assert(!("vocabularies"@ =~= "practice_progress"@));
    assert(!("vocabularies"@ =~= "practice_sessions"@));
    assert("vocabularies"@[0] != "wordProgress"@[0]);
    assert(!("vocabularies"@ =~= "wordProgress"@));
    assert(!("vocabularies"@ =~= "word_progress"@));
    assert(!("wordProgress"@ =~= "learningSettings"@));
    assert(!("wordProgress"@ =~= "practiceProgress"@));
    assert(!("wordProgress"@ =~= "practiceSessions"@));
    assert(!("word_progress"@ =~= "learning_settings"@));
    assert(!("word_progress"@ =~= "practice_progress"@));
    assert(!("word_progress"@ =~= "practice_sessions"@));
}

/// The delete rank is the exact reverse of the insert rank.
pub proof fn lemma_delete_rank_reverses(k1: TableKind, k2: TableKind)
    ensures
        spec_insert_rank(k1) < spec_insert_rank(k2) <==> spec_delete_rank(k2) < spec_delete_rank(k1),
        spec_insert_rank(k1) == spec_insert_rank(k2) <==> k1 == k2,
{
}

} // verus!
