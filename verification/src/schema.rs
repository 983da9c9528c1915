//! Closed schema of each synced table: the ordered list of payload fields
//! with the kind and default of each, making the lenient-decoding contract
//! declarative. The two typed tables (collections and vocabularies) are
//! decoded by the record codec instead and have no entry here.

use vstd::prelude::*;

use crate::json::{
    spec_bool_or, spec_get, spec_int_or, spec_opt_int, spec_opt_str, spec_str_list, spec_str_or,
    JsonV, JsonValue,
};
use crate::tables::TableKind;

verus! {

broadcast use vstd::std_specs::vec::group_vec_axioms;

/// Kind of one payload field, with the default that a missing or
/// type-mismatched value resolves to.
#[derive(Debug, Clone, Copy)]
pub enum FieldKind {
    /// A string, with its default.
    KStr(&'static str),
    /// An integer, with its default.
    KInt(i64),
    /// A boolean, with its default.
    KBool(bool),
    /// An optional string; missing stays null.
    KStrNull,
    /// An optional integer; missing stays null.
    KIntNull,
    /// An integer timestamp whose default is the time of the apply.
    KNow,
    /// An array of strings; non-string elements are dropped.
    KStrList,
    /// A value kept as found; missing becomes null.
    KRaw,
}

/// One field of a table's schema.
#[derive(Debug, Clone, Copy)]
pub struct FieldSpec {
    pub key: &'static str,
    pub kind: FieldKind,
}

/// Mathematical shape of a field kind.
pub enum FieldKindV {
    KStr(Seq<char>),
    KInt(i64),
    KBool(bool),
    KStrNull,
    KIntNull,
    KNow,
    KStrList,
    KRaw,
}

/// Mathematical shape of a schema field.
#[verifier::ext_equal]
pub struct FieldSpecV {
    pub key: Seq<char>,
    pub kind: FieldKindV,
}

impl DeepView for FieldKind {
    type V = FieldKindV;

    open spec fn deep_view(&self) -> FieldKindV {
        match self {
            FieldKind::KStr(d) => FieldKindV::KStr(d@),
            FieldKind::KInt(d) => FieldKindV::KInt(*d),
            FieldKind::KBool(d) => FieldKindV::KBool(*d),
            FieldKind::KStrNull => FieldKindV::KStrNull,
            FieldKind::KIntNull => FieldKindV::KIntNull,
            FieldKind::KNow => FieldKindV::KNow,
            FieldKind::KStrList => FieldKindV::KStrList,
            FieldKind::KRaw => FieldKindV::KRaw,
        }
    }
}

impl DeepView for FieldSpec {
    type V = FieldSpecV;

    open spec fn deep_view(&self) -> FieldSpecV {
        FieldSpecV { key: self.key@, kind: self.kind.deep_view() }
    }
}

/// Schema of each generic synced table, in payload order.
pub open spec fn spec_table_schema(k: TableKind) -> Seq<FieldSpecV> {
    match k {
        TableKind::WordProgress => seq![
            FieldSpecV { key: "language"@, kind: FieldKindV::KStr("en"@) },
            FieldSpecV { key: "vocabularyId"@, kind: FieldKindV::KStr(""@) },
            FieldSpecV { key: "word"@, kind: FieldKindV::KStr(""@) },
            FieldSpecV { key: "correctCount"@, kind: FieldKindV::KInt(0) },
            FieldSpecV { key: "incorrectCount"@, kind: FieldKindV::KInt(0) },
            FieldSpecV { key: "totalReviews"@, kind: FieldKindV::KInt(0) },
            FieldSpecV { key: "masteryLevel"@, kind: FieldKindV::KInt(0) },
            FieldSpecV { key: "nextReviewDate"@, kind: FieldKindV::KNow },
            FieldSpecV { key: "intervalDays"@, kind: FieldKindV::KInt(0) },
            FieldSpecV { key: "easinessFactor"@, kind: FieldKindV::KStr("2.5"@) },
            FieldSpecV { key: "consecutiveCorrectCount"@, kind: FieldKindV::KInt(0) },
            FieldSpecV { key: "leitnerBox"@, kind: FieldKindV::KInt(1) },
            FieldSpecV { key: "lastIntervalDays"@, kind: FieldKindV::KInt(0) },
            FieldSpecV { key: "failedInSession"@, kind: FieldKindV::KBool(false) },
            FieldSpecV { key: "retryCount"@, kind: FieldKindV::KInt(0) },
            FieldSpecV { key: "lastPracticed"@, kind: FieldKindV::KNow },
            FieldSpecV { key: "completedModesInCycle"@, kind: FieldKindV::KStrList },
            FieldSpecV { key: "createdAt"@, kind: FieldKindV::KNow },
            FieldSpecV { key: "updatedAt"@, kind: FieldKindV::KNow },
        ],
        TableKind::LearningSettings => seq![
            FieldSpecV { key: "srAlgorithm"@, kind: FieldKindV::KStr("sm2"@) },
            FieldSpecV { key: "leitnerBoxCount"@, kind: FieldKindV::KInt(5) },
            FieldSpecV { key: "consecutiveCorrectRequired"@, kind: FieldKindV::KInt(3) },
            FieldSpecV { key: "showFailedWordsInSession"@, kind: FieldKindV::KBool(true) },
            FieldSpecV { key: "newWordsPerDay"@, kind: FieldKindV::KIntNull },
            FieldSpecV { key: "dailyReviewLimit"@, kind: FieldKindV::KIntNull },
            FieldSpecV { key: "autoAdvanceTimeoutSeconds"@, kind: FieldKindV::KInt(2) },
            FieldSpecV { key: "showHintInFillword"@, kind: FieldKindV::KBool(true) },
            FieldSpecV { key: "reminderEnabled"@, kind: FieldKindV::KBool(false) },
            FieldSpecV { key: "reminderTime"@, kind: FieldKindV::KStr("19:00"@) },
            FieldSpecV { key: "createdAt"@, kind: FieldKindV::KNow },
            FieldSpecV { key: "updatedAt"@, kind: FieldKindV::KNow },
        ],
        TableKind::PracticeSessions => seq![
            FieldSpecV { key: "collectionId"@, kind: FieldKindV::KStr(""@) },
            FieldSpecV { key: "mode"@, kind: FieldKindV::KStr("flashcard"@) },
            FieldSpecV { key: "language"@, kind: FieldKindV::KStr("en"@) },
            FieldSpecV { key: "topic"@, kind: FieldKindV::KStrNull },
            FieldSpecV { key: "level"@, kind: FieldKindV::KStrNull },
            FieldSpecV { key: "totalQuestions"@, kind: FieldKindV::KInt(0) },
            FieldSpecV { key: "correctAnswers"@, kind: FieldKindV::KInt(0) },
            FieldSpecV { key: "startedAt"@, kind: FieldKindV::KNow },
            FieldSpecV { key: "completedAt"@, kind: FieldKindV::KNow },
            FieldSpecV { key: "durationSeconds"@, kind: FieldKindV::KInt(0) },
            FieldSpecV { key: "results"@, kind: FieldKindV::KRaw },
        ],
        TableKind::PracticeProgress => seq![
            FieldSpecV { key: "language"@, kind: FieldKindV::KStr("en"@) },
            FieldSpecV { key: "totalSessions"@, kind: FieldKindV::KInt(0) },
            FieldSpecV { key: "totalWordsPracticed"@, kind: FieldKindV::KInt(0) },
            FieldSpecV { key: "currentStreak"@, kind: FieldKindV::KInt(0) },
            FieldSpecV { key: "longestStreak"@, kind: FieldKindV::KInt(0) },
            FieldSpecV { key: "lastPracticeDate"@, kind: FieldKindV::KNow },
            FieldSpecV { key: "createdAt"@, kind: FieldKindV::KNow },
            FieldSpecV { key: "updatedAt"@, kind: FieldKindV::KNow },
        ],
        TableKind::UserLearningLanguages => seq![
            FieldSpecV { key: "language"@, kind: FieldKindV::KStr("en"@) },
            FieldSpecV { key: "createdAt"@, kind: FieldKindV::KNow },
        ],
        TableKind::Topics => seq![
            FieldSpecV { key: "name"@, kind: FieldKindV::KStr(""@) },
            FieldSpecV { key: "createdAt"@, kind: FieldKindV::KNow },
        ],
        TableKind::Tags => seq![
            FieldSpecV { key: "name"@, kind: FieldKindV::KStr(""@) },
            FieldSpecV { key: "createdAt"@, kind: FieldKindV::KNow },
        ],
        TableKind::CollectionSharedUsers => seq![
            FieldSpecV { key: "collectionId"@, kind: FieldKindV::KStr(""@) },
            FieldSpecV { key: "userId"@, kind: FieldKindV::KStr(""@) },
            FieldSpecV { key: "permission"@, kind: FieldKindV::KStr("viewer"@) },
            FieldSpecV { key: "createdAt"@, kind: FieldKindV::KNow },
        ],
        TableKind::Collections => Seq::empty(),
        TableKind::Vocabularies => Seq::empty(),
    }
}

/// The lenient value of one schema field in a payload: the payload's value
/// when it has the field's kind, the field's default otherwise.
pub open spec fn spec_field_value(data: JsonV, f: FieldSpecV, now: i64) -> JsonV {
    match f.kind {
        FieldKindV::KStr(d) => JsonV::Str(spec_str_or(data, f.key, d)),
        FieldKindV::KInt(d) => JsonV::Int(spec_int_or(data, f.key, d)),
        FieldKindV::KBool(d) => JsonV::Bool(spec_bool_or(data, f.key, d)),
        FieldKindV::KStrNull => (match spec_opt_str(data, f.key) {
            Some(s) => JsonV::Str(s),
            None => JsonV::Null,
        }),
        FieldKindV::KIntNull => (match spec_opt_int(data, f.key) {
            Some(i) => JsonV::Int(i),
            None => JsonV::Null,
        }),
        FieldKindV::KNow => JsonV::Int(spec_int_or(data, f.key, now)),
        FieldKindV::KStrList => JsonV::Arr(
            spec_str_list(data, f.key).map_values(|s: Seq<char>| JsonV::Str(s)),
        ),
        FieldKindV::KRaw => (match spec_get(data, f.key) {
            Some(v) => v,
            None => JsonV::Null,
        }),
    }
}

/// A payload normalized against a schema: an object with exactly the
/// schema's fields in the schema's order, each resolved leniently.
pub open spec fn spec_normalize(data: JsonV, schema: Seq<FieldSpecV>, now: i64) -> JsonV {
    JsonV::Obj(Seq::new(schema.len(), |i: int| (schema[i].key, spec_field_value(data, schema[i], now))))
}

/// A payload of table `k` normalized against the table's schema.
pub open spec fn spec_normalize_table(k: TableKind, data: JsonV, now: i64) -> JsonV {
    spec_normalize(data, spec_table_schema(k), now)
}

/// The schema of a generic synced table; empty for the two typed tables.
pub fn table_schema(k: TableKind) -> (r: Vec<FieldSpec>)
    ensures
        r.deep_view() == spec_table_schema(k),
{
    let mut v: Vec<FieldSpec> = Vec::new();
    match k {
        TableKind::WordProgress => {
            v.push(FieldSpec { key: "language", kind: FieldKind::KStr("en") });
            v.push(FieldSpec { key: "vocabularyId", kind: FieldKind::KStr("") });
            v.push(FieldSpec { key: "word", kind: FieldKind::KStr("") });
            v.push(FieldSpec { key: "correctCount", kind: FieldKind::KInt(0) });
            v.push(FieldSpec { key: "incorrectCount", kind: FieldKind::KInt(0) });
            v.push(FieldSpec { key: "totalReviews", kind: FieldKind::KInt(0) });
            v.push(FieldSpec { key: "masteryLevel", kind: FieldKind::KInt(0) });
            v.push(FieldSpec { key: "nextReviewDate", kind: FieldKind::KNow });
            v.push(FieldSpec { key: "intervalDays", kind: FieldKind::KInt(0) });
            v.push(FieldSpec { key: "easinessFactor", kind: FieldKind::KStr("2.5") });
            v.push(FieldSpec { key: "consecutiveCorrectCount", kind: FieldKind::KInt(0) });
            v.push(FieldSpec { key: "leitnerBox", kind: FieldKind::KInt(1) });
            v.push(FieldSpec { key: "lastIntervalDays", kind: FieldKind::KInt(0) });
            v.push(FieldSpec { key: "failedInSession", kind: FieldKind::KBool(false) });
            v.push(FieldSpec { key: "retryCount", kind: FieldKind::KInt(0) });
            v.push(FieldSpec { key: "lastPracticed", kind: FieldKind::KNow });
            v.push(FieldSpec { key: "completedModesInCycle", kind: FieldKind::KStrList });
            v.push(FieldSpec { key: "createdAt", kind: FieldKind::KNow });
            v.push(FieldSpec { key: "updatedAt", kind: FieldKind::KNow });
        },
        TableKind::LearningSettings => {
            v.push(FieldSpec { key: "srAlgorithm", kind: FieldKind::KStr("sm2") });
            v.push(FieldSpec { key: "leitnerBoxCount", kind: FieldKind::KInt(5) });
            v.push(FieldSpec { key: "consecutiveCorrectRequired", kind: FieldKind::KInt(3) });
            v.push(FieldSpec { key: "showFailedWordsInSession", kind: FieldKind::KBool(true) });
            v.push(FieldSpec { key: "newWordsPerDay", kind: FieldKind::KIntNull });
            v.push(FieldSpec { key: "dailyReviewLimit", kind: FieldKind::KIntNull });
            v.push(FieldSpec { key: "autoAdvanceTimeoutSeconds", kind: FieldKind::KInt(2) });
            v.push(FieldSpec { key: "showHintInFillword", kind: FieldKind::KBool(true) });
            v.push(FieldSpec { key: "reminderEnabled", kind: FieldKind::KBool(false) });
            v.push(FieldSpec { key: "reminderTime", kind: FieldKind::KStr("19:00") });
            v.push(FieldSpec { key: "createdAt", kind: FieldKind::KNow });
            v.push(FieldSpec { key: "updatedAt", kind: FieldKind::KNow });
        },
        TableKind::PracticeSessions => {
            v.push(FieldSpec { key: "collectionId", kind: FieldKind::KStr("") });
            v.push(FieldSpec { key: "mode", kind: FieldKind::KStr("flashcard") });
            v.push(FieldSpec { key: "language", kind: FieldKind::KStr("en") });
            v.push(FieldSpec { key: "topic", kind: FieldKind::KStrNull });
            v.push(FieldSpec { key: "level", kind: FieldKind::KStrNull });
            v.push(FieldSpec { key: "totalQuestions", kind: FieldKind::KInt(0) });
            v.push(FieldSpec { key: "correctAnswers", kind: FieldKind::KInt(0) });
            v.push(FieldSpec { key: "startedAt", kind: FieldKind::KNow });
            v.push(FieldSpec { key: "completedAt", kind: FieldKind::KNow });
            v.push(FieldSpec { key: "durationSeconds", kind: FieldKind::KInt(0) });
            v.push(FieldSpec { key: "results", kind: FieldKind::KRaw });
        },
        TableKind::PracticeProgress => {
            v.push(FieldSpec { key: "language", kind: FieldKind::KStr("en") });
            v.push(FieldSpec { key: "totalSessions", kind: FieldKind::KInt(0) });
            v.push(FieldSpec { key: "totalWordsPracticed", kind: FieldKind::KInt(0) });
            v.push(FieldSpec { key: "currentStreak", kind: FieldKind::KInt(0) });
            v.push(FieldSpec { key: "longestStreak", kind: FieldKind::KInt(0) });
            v.push(FieldSpec { key: "lastPracticeDate", kind: FieldKind::KNow });
            v.push(FieldSpec { key: "createdAt", kind: FieldKind::KNow });
            v.push(FieldSpec { key: "updatedAt", kind: FieldKind::KNow });
        },
        TableKind::UserLearningLanguages => {
            v.push(FieldSpec { key: "language", kind: FieldKind::KStr("en") });
            v.push(FieldSpec { key: "createdAt", kind: FieldKind::KNow });
        },
        TableKind::Topics => {
            v.push(FieldSpec { key: "name", kind: FieldKind::KStr("") });
            v.push(FieldSpec { key: "createdAt", kind: FieldKind::KNow });
        },
        TableKind::Tags => {
            v.push(FieldSpec { key: "name", kind: FieldKind::KStr("") });
            v.push(FieldSpec { key: "createdAt", kind: FieldKind::KNow });
        },
        TableKind::CollectionSharedUsers => {
            v.push(FieldSpec { key: "collectionId", kind: FieldKind::KStr("") });
            v.push(FieldSpec { key: "userId", kind: FieldKind::KStr("") });
            v.push(FieldSpec { key: "permission", kind: FieldKind::KStr("viewer") });
            v.push(FieldSpec { key: "createdAt", kind: FieldKind::KNow });
        },
        TableKind::Collections => {},
        TableKind::Vocabularies => {},
    }
    proof {
        assert(v.deep_view() =~= spec_table_schema(k));
    }
    v
}

/// Convert a list of strings into string payload values.
pub(crate) fn strs_to_values_of(items: &Vec<String>) -> (r: Vec<JsonValue>)
    ensures
        r.deep_view() == items.deep_view().map_values(|s: Seq<char>| JsonV::Str(s)),
{
    let mut out: Vec<JsonValue> = Vec::new();
    let mut i: usize = 0;
    while i < items.len()
        invariant
            i <= items.len(),
            out@.len() == i,
            out.deep_view() =~= items.deep_view().take(i as int).map_values(
                |s: Seq<char>| JsonV::Str(s),
            ),
        decreases items.len() - i,
    {
        let x = JsonValue::Str(items[i].clone());
        let ghost gx = x;
        let ghost prev = out.deep_view();
        out.push(x);
        proof {
            assert(out@.len() == i + 1);
            assert(out@[i as int] == gx);
            assert(gx.deep_view() == JsonV::Str(items.deep_view()[i as int]));
            assert(out.deep_view()[i as int] == gx.deep_view());
            assert(forall|j: int| 0 <= j < i ==> #[trigger] out.deep_view()[j] == prev[j]);
            assert(out.deep_view() =~= items.deep_view().take(i + 1).map_values(
                |s: Seq<char>| JsonV::Str(s),
            ));
        }
        i += 1;
    }
    proof {
        assert(items.deep_view().take(items@.len() as int) =~= items.deep_view());
    }
    out
}

/// The executable lenient value of one schema field.
fn field_value(data: &JsonValue, f: &FieldSpec, now: i64) -> (r: JsonValue)
    ensures
        r.deep_view() == spec_field_value(data.deep_view(), f.deep_view(), now),
{
    match &f.kind {
        FieldKind::KStr(d) => JsonValue::Str(data.str_or(f.key, d)),
        FieldKind::KInt(d) => JsonValue::Int(data.int_or(f.key, *d)),
        FieldKind::KBool(d) => JsonValue::Bool(data.bool_or(f.key, *d)),
        FieldKind::KStrNull => (match data.opt_str(f.key) {
            Some(s) => JsonValue::Str(s),
            None => JsonValue::Null,
        }),
        FieldKind::KIntNull => (match data.opt_int(f.key) {
            Some(i) => JsonValue::Int(i),
            None => JsonValue::Null,
        }),
        FieldKind::KNow => JsonValue::Int(data.int_or(f.key, now)),
        FieldKind::KStrList => {
            let items = data.str_list(f.key);
            let vals = strs_to_values_of(&items);
            let r = JsonValue::Arr(vals);
            proof {
                crate::json::lemma_arr_deep_view(r->Arr_0);
            }
            r
        },
        FieldKind::KRaw => (match data.get(f.key) {
            Some(v) => v.duplicate(),
            None => JsonValue::Null,
        }),
    }
}

/// Normalize a payload against a schema, executably.
pub fn normalize(data: &JsonValue, schema: &Vec<FieldSpec>, now: i64) -> (r: JsonValue)
    ensures
        r.deep_view() == spec_normalize(data.deep_view(), schema.deep_view(), now),
{
    let mut out: Vec<(String, JsonValue)> = Vec::new();
    let mut i: usize = 0;
    while i < schema.len()
        invariant
            i <= schema.len(),
            out@.len() == i,
            out.deep_view().len() == i,
            forall|j: int| 0 <= j < i ==> #[trigger] out.deep_view()[j] == (
                schema.deep_view()[j].key,
                spec_field_value(data.deep_view(), schema.deep_view()[j], now),
            ),
        decreases schema.len() - i,
    {
        let value = field_value(data, &schema[i], now);
        let ghost gv = value.deep_view();
        let ghost prev = out.deep_view();
        let key = schema[i].key.to_owned();
        out.push((key, value));
        proof {
            assert(out@.len() == i + 1);
            assert(out.deep_view()[i as int] == (schema.deep_view()[i as int].key, gv));
            assert(forall|j: int| 0 <= j < i ==> #[trigger] out.deep_view()[j] == prev[j]);
        }
        i += 1;
    }
    let r = JsonValue::Obj(out);
    proof {
        crate::json::lemma_obj_deep_view(r->Obj_0);
        assert(r.deep_view()->Obj_0 =~= spec_normalize(
            data.deep_view(),
            schema.deep_view(),
            now,
        )->Obj_0);
    }
    r
}

/// Normalize a payload against the schema of table `k`.
pub fn normalize_for_table(k: TableKind, data: &JsonValue, now: i64) -> (r: JsonValue)
    ensures
        r.deep_view() == spec_normalize_table(k, data.deep_view(), now),
{
    let schema = table_schema(k);
    normalize(data, &schema, now)
}

} // verus!
