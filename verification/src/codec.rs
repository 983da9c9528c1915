//! The record codec: between a typed local row and the wire payload of a
//! record. Encoding flattens the nested child entities of a vocabulary into
//! nested payload arrays and omits absent optional fields; decoding is
//! lenient, resolving each missing or mismatched field to its documented
//! default.

use vstd::prelude::*;

use crate::json::{
    lemma_fields_get_found, lemma_fields_get_missing, obj_new, obj_push, spec_arr_or_empty,
    spec_opt_str, spec_str_list, spec_str_or, JsonV, JsonValue,
};
use crate::model::{
    parse_word_relationship, parse_word_type, spec_parse_word_relationship, spec_parse_word_type,
    spec_word_relationship_string, spec_word_type_string, word_relationship_to_string,
    word_type_to_string, Definition, DefinitionV, RelatedWord, RelatedWordV,
};
use crate::store::{CollectionRow, CollectionRowV, SyncMeta, VocabularyRow, VocabularyRowV};

verus! {

broadcast use vstd::std_specs::vec::group_vec_axioms;

// ---------------------------------------------------------------------------
// Decoding: payload -> typed fields, with lenient defaults.
// ---------------------------------------------------------------------------

/// One decoded definition: a missing meaning becomes empty, missing
/// translation and example stay absent.
pub open spec fn spec_decode_definition(d: JsonV) -> DefinitionV {
    DefinitionV {
        meaning: spec_str_or(d, "meaning"@, ""@),
        translation: spec_opt_str(d, "translation"@),
        example: spec_opt_str(d, "example"@),
    }
}

pub open spec fn spec_decode_definitions(items: Seq<JsonV>) -> Seq<DefinitionV> {
    items.map_values(|d: JsonV| spec_decode_definition(d))
}

/// One decoded related word: missing ids and words become empty, an
/// unknown relationship becomes the generic related kind.
pub open spec fn spec_decode_related(d: JsonV) -> RelatedWordV {
    RelatedWordV {
        word_id: spec_str_or(d, "wordId"@, ""@),
        word: spec_str_or(d, "word"@, ""@),
        relationship: spec_parse_word_relationship(spec_str_or(d, "relationship"@, "related"@)),
    }
}

pub open spec fn spec_decode_related_words(items: Seq<JsonV>) -> Seq<RelatedWordV> {
    items.map_values(|d: JsonV| spec_decode_related(d))
}

/// The vocabulary row created by a remote record for a row id not yet
/// present: every domain field is decoded leniently from the payload.
pub open spec fn spec_vocab_inserted(data: JsonV, id: Seq<char>, version: i64, now: i64) -> VocabularyRowV {
    VocabularyRowV {
        id: id,
        word: spec_str_or(data, "word"@, ""@),
        word_type: spec_parse_word_type(spec_str_or(data, "wordType"@, "n/a"@)),
        level: spec_str_or(data, "level"@, ""@),
        ipa: spec_str_or(data, "ipa"@, ""@),
        audio_url: spec_opt_str(data, "audioUrl"@),
        concept: spec_opt_str(data, "concept"@),
        language: spec_str_or(data, "language"@, ""@),
        collection_id: spec_str_or(data, "collectionId"@, ""@),
        definitions: spec_decode_definitions(spec_arr_or_empty(data, "definitions"@)),
        example_sentences: spec_str_list(data, "exampleSentences"@),
        topics: spec_str_list(data, "topics"@),
        tags: spec_str_list(data, "tags"@),
        related_words: spec_decode_related_words(spec_arr_or_empty(data, "relatedWords"@)),
        created_at: now,
        updated_at: now,
        meta: SyncMeta { sync_version: version, synced_at: Some(now), deleted: false, deleted_at: None },
    }
}

/// The vocabulary row after a remote record overwrites an existing row:
/// domain fields come from the payload; the row's language, creation time
/// and soft-delete state are kept.
pub open spec fn spec_vocab_updated(c: VocabularyRowV, data: JsonV, version: i64, now: i64) -> VocabularyRowV {
    VocabularyRowV {
        id: c.id,
        language: c.language,
        created_at: c.created_at,
        word: spec_str_or(data, "word"@, ""@),
        word_type: spec_parse_word_type(spec_str_or(data, "wordType"@, "n/a"@)),
        level: spec_str_or(data, "level"@, ""@),
        ipa: spec_str_or(data, "ipa"@, ""@),
        audio_url: spec_opt_str(data, "audioUrl"@),
        concept: spec_opt_str(data, "concept"@),
        collection_id: spec_str_or(data, "collectionId"@, ""@),
        definitions: spec_decode_definitions(spec_arr_or_empty(data, "definitions"@)),
        example_sentences: spec_str_list(data, "exampleSentences"@),
        topics: spec_str_list(data, "topics"@),
        tags: spec_str_list(data, "tags"@),
        related_words: spec_decode_related_words(spec_arr_or_empty(data, "relatedWords"@)),
        updated_at: now,
        meta: SyncMeta { sync_version: version, synced_at: Some(now), ..c.meta },
    }
}

/// The owner recorded on a pulled collection: a non-empty `ownerId` that is
/// not the current user marks the collection as shared by that owner.
pub open spec fn spec_shared_by(data: JsonV, user: Option<Seq<char>>) -> Option<Seq<char>> {
    match spec_opt_str(data, "ownerId"@) {
        Some(o) => if o.len() > 0 && user != Some(o) {
            Some(o)
        } else {
            None
        },
        None => None,
    }
}

/// The collection row created by a remote record for a row id not yet
/// present.
pub open spec fn spec_collection_inserted(
    data: JsonV,
    id: Seq<char>,
    user: Option<Seq<char>>,
    version: i64,
    now: i64,
) -> CollectionRowV {
    CollectionRowV {
        id: id,
        name: spec_str_or(data, "name"@, ""@),
        description: spec_str_or(data, "description"@, ""@),
        language: spec_str_or(data, "language"@, ""@),
        shared_by: spec_shared_by(data, user),
        is_public: crate::json::spec_bool_or(data, "isPublic"@, false),
        word_count: 0,
        created_at: now,
        updated_at: now,
        meta: SyncMeta { sync_version: version, synced_at: Some(now), deleted: false, deleted_at: None },
    }
}

/// The collection row after a remote record overwrites an existing row:
/// name, description, visibility and owner come from the payload; the
/// row's language, creation time, denormalized count and soft-delete state
/// are kept.
pub open spec fn spec_collection_updated(
    c: CollectionRowV,
    data: JsonV,
    user: Option<Seq<char>>,
    version: i64,
    now: i64,
) -> CollectionRowV {
    CollectionRowV {
        name: spec_str_or(data, "name"@, ""@),
        description: spec_str_or(data, "description"@, ""@),
        is_public: crate::json::spec_bool_or(data, "isPublic"@, false),
        shared_by: spec_shared_by(data, user),
        updated_at: now,
        meta: SyncMeta { sync_version: version, synced_at: Some(now), ..c.meta },
        ..c
    }
}

/// Decode the definitions array of a vocabulary payload.
pub fn decode_definitions(items: &[JsonValue]) -> (r: Vec<Definition>)
    ensures
        r.deep_view() == spec_decode_definitions(items.deep_view()),
{
    let mut out: Vec<Definition> = Vec::new();
    let mut i: usize = 0;
    while i < items.len()
        invariant
            i <= items@.len(),
            out@.len() == i,
            forall|j: int| 0 <= j < i ==> #[trigger] out.deep_view()[j] == spec_decode_definition(
                items.deep_view()[j],
            ),
        decreases items@.len() - i,
    {
        let d = &items[i];
        let ghost prev = out.deep_view();
        out.push(
            Definition {
                meaning: d.str_or("meaning", ""),
                translation: d.opt_str("translation"),
                example: d.opt_str("example"),
            },
        );
        proof {
            assert(out@.len() == i + 1);
            assert(out.deep_view()[i as int] == spec_decode_definition(items.deep_view()[i as int]));
            assert(forall|j: int| 0 <= j < i ==> #[trigger] out.deep_view()[j] == prev[j]);
        }
        i += 1;
    }
    proof {
        assert(out.deep_view() =~= spec_decode_definitions(items.deep_view()));
    }
    out
}

/// Decode the related-words array of a vocabulary payload.
pub fn decode_related_words(items: &[JsonValue]) -> (r: Vec<RelatedWord>)
    ensures
        r.deep_view() == spec_decode_related_words(items.deep_view()),
{
    let mut out: Vec<RelatedWord> = Vec::new();
    let mut i: usize = 0;
    while i < items.len()
        invariant
            i <= items@.len(),
            out@.len() == i,
            forall|j: int| 0 <= j < i ==> #[trigger] out.deep_view()[j] == spec_decode_related(
                items.deep_view()[j],
            ),
        decreases items@.len() - i,
    {
        let d = &items[i];
        let ghost prev = out.deep_view();
        let rel = d.str_or("relationship", "related");
        out.push(
            RelatedWord {
                word_id: d.str_or("wordId", ""),
                word: d.str_or("word", ""),
                relationship: parse_word_relationship(rel.as_str()),
            },
        );
        proof {
            assert(out@.len() == i + 1);
            assert(out.deep_view()[i as int] == spec_decode_related(items.deep_view()[i as int]));
            assert(forall|j: int| 0 <= j < i ==> #[trigger] out.deep_view()[j] == prev[j]);
        }
        i += 1;
    }
    proof {
        assert(out.deep_view() =~= spec_decode_related_words(items.deep_view()));
    }
    out
}

// ---------------------------------------------------------------------------
// Encoding: typed row -> wire payload.
// ---------------------------------------------------------------------------

/// The payload of an outbound collection record: the row's domain fields,
/// the current user as owner when known, and the share origin when the
/// collection was shared to this device. Absent optional fields are
/// omitted.
pub open spec fn spec_encode_collection(c: CollectionRowV, owner: Option<Seq<char>>) -> JsonV {
    JsonV::Obj(
        seq![
            ("id"@, JsonV::Str(c.id)),
            ("name"@, JsonV::Str(c.name)),
            ("description"@, JsonV::Str(c.description)),
            ("language"@, JsonV::Str(c.language)),
            ("isPublic"@, JsonV::Bool(c.is_public)),
            ("wordCount"@, JsonV::Int(c.word_count)),
            ("createdAt"@, JsonV::Int(c.created_at)),
            ("updatedAt"@, JsonV::Int(c.updated_at)),
            ("syncVersion"@, JsonV::Int(c.meta.sync_version)),
        ] + (match owner {
            Some(o) => seq![("ownerId"@, JsonV::Str(o))],
            None => Seq::empty(),
        }) + (match c.shared_by {
            Some(sb) => seq![("sharedBy"@, JsonV::Str(sb))],
            None => Seq::empty(),
        }),
    )
}

/// Build the payload of an outbound collection record.
pub fn encode_collection(c: &CollectionRow, owner: Option<&str>) -> (r: JsonValue)
    ensures
        r.deep_view() == spec_encode_collection(c.deep_view(), owner.deep_view()),
{
    let mut obj = obj_new();
    obj = obj_push(obj, "id", JsonValue::Str(c.id.clone()));
    obj = obj_push(obj, "name", JsonValue::Str(c.name.clone()));
    obj = obj_push(obj, "description", JsonValue::Str(c.description.clone()));
    obj = obj_push(obj, "language", JsonValue::Str(c.language.clone()));
    obj = obj_push(obj, "isPublic", JsonValue::Bool(c.is_public));
    obj = obj_push(obj, "wordCount", JsonValue::Int(c.word_count));
    obj = obj_push(obj, "createdAt", JsonValue::Int(c.created_at));
    obj = obj_push(obj, "updatedAt", JsonValue::Int(c.updated_at));
    obj = obj_push(obj, "syncVersion", JsonValue::Int(c.meta.sync_version));
    match owner {
        Some(o) => {
            obj = obj_push(obj, "ownerId", JsonValue::Str(o.to_owned()));
        },
        None => {},
    }
    match &c.shared_by {
        Some(sb) => {
            obj = obj_push(obj, "sharedBy", JsonValue::Str(sb.clone()));
        },
        None => {},
    }
    proof {
        assert(obj.deep_view()->Obj_0 =~= spec_encode_collection(
            c.deep_view(),
            owner.deep_view(),
        )->Obj_0);
    }
    obj
}

pub open spec fn spec_encode_definition(d: DefinitionV) -> JsonV {
    JsonV::Obj(
        seq![
            ("meaning"@, JsonV::Str(d.meaning)),
            ("translation"@, (match d.translation {
                Some(t) => JsonV::Str(t),
                None => JsonV::Null,
            })),
            ("example"@, (match d.example {
                Some(e) => JsonV::Str(e),
                None => JsonV::Null,
            })),
        ],
    )
}

pub open spec fn spec_encode_definitions(ds: Seq<DefinitionV>) -> Seq<JsonV> {
    ds.map_values(|d: DefinitionV| spec_encode_definition(d))
}

pub open spec fn spec_encode_related(w: RelatedWordV) -> JsonV {
    JsonV::Obj(
        seq![
            ("wordId"@, JsonV::Str(w.word_id)),
            ("word"@, JsonV::Str(w.word)),
            ("relationship"@, JsonV::Str(spec_word_relationship_string(w.relationship))),
        ],
    )
}

pub open spec fn spec_encode_related_words(ws: Seq<RelatedWordV>) -> Seq<JsonV> {
    ws.map_values(|w: RelatedWordV| spec_encode_related(w))
}

fn encode_definition(d: &Definition) -> (r: JsonValue)
    ensures
        r.deep_view() == spec_encode_definition(d.deep_view()),
{
    let mut obj = obj_new();
    obj = obj_push(obj, "meaning", JsonValue::Str(d.meaning.clone()));
    obj = obj_push(
        obj,
        "translation",
        match &d.translation {
            Some(t) => JsonValue::Str(t.clone()),
            None => JsonValue::Null,
        },
    );
    obj = obj_push(
        obj,
        "example",
        match &d.example {
            Some(e) => JsonValue::Str(e.clone()),
            None => JsonValue::Null,
        },
    );
    proof {
        assert(obj.deep_view()->Obj_0 =~= spec_encode_definition(d.deep_view())->Obj_0);
    }
    obj
}

fn encode_related(w: &RelatedWord) -> (r: JsonValue)
    ensures
        r.deep_view() == spec_encode_related(w.deep_view()),
{
    let mut obj = obj_new();
    obj = obj_push(obj, "wordId", JsonValue::Str(w.word_id.clone()));
    obj = obj_push(obj, "word", JsonValue::Str(w.word.clone()));
    obj = obj_push(
        obj,
        "relationship",
        JsonValue::Str(word_relationship_to_string(&w.relationship).to_owned()),
    );
    proof {
        assert(obj.deep_view()->Obj_0 =~= spec_encode_related(w.deep_view())->Obj_0);
    }
    obj
}

fn encode_definitions(ds: &Vec<Definition>) -> (r: Vec<JsonValue>)
    ensures
        r.deep_view() == spec_encode_definitions(ds.deep_view()),
{
    let mut out: Vec<JsonValue> = Vec::new();
    let mut i: usize = 0;
    while i < ds.len()
        invariant
            i <= ds@.len(),
            out@.len() == i,
            forall|j: int| 0 <= j < i ==> #[trigger] out.deep_view()[j] == spec_encode_definition(
                ds.deep_view()[j],
            ),
        decreases ds@.len() - i,
    {
        let ghost prev = out.deep_view();
        out.push(encode_definition(&ds[i]));
        proof {
            assert(out@.len() == i + 1);
            assert(forall|j: int| 0 <= j < i ==> #[trigger] out.deep_view()[j] == prev[j]);
        }
        i += 1;
    }
    proof {
        assert(out.deep_view() =~= spec_encode_definitions(ds.deep_view()));
    }
    out
}

fn encode_related_words(ws: &Vec<RelatedWord>) -> (r: Vec<JsonValue>)
    ensures
        r.deep_view() == spec_encode_related_words(ws.deep_view()),
{
    let mut out: Vec<JsonValue> = Vec::new();
    let mut i: usize = 0;
    while i < ws.len()
        invariant
            i <= ws@.len(),
            out@.len() == i,
            forall|j: int| 0 <= j < i ==> #[trigger] out.deep_view()[j] == spec_encode_related(
                ws.deep_view()[j],
            ),
        decreases ws@.len() - i,
    {
        let ghost prev = out.deep_view();
        out.push(encode_related(&ws[i]));
        proof {
            assert(out@.len() == i + 1);
            assert(forall|j: int| 0 <= j < i ==> #[trigger] out.deep_view()[j] == prev[j]);
        }
        i += 1;
    }
    proof {
        assert(out.deep_view() =~= spec_encode_related_words(ws.deep_view()));
    }
    out
}

/// The payload of an outbound vocabulary record: the row's domain fields
/// with nested child entities flattened into arrays. Absent optional
/// fields are omitted.
pub open spec fn spec_encode_vocabulary(v: VocabularyRowV) -> JsonV {
    JsonV::Obj(
        seq![
            ("id"@, JsonV::Str(v.id)),
            ("word"@, JsonV::Str(v.word)),
            ("wordType"@, JsonV::Str(spec_word_type_string(v.word_type))),
            ("level"@, JsonV::Str(v.level)),
            ("ipa"@, JsonV::Str(v.ipa)),
            ("language"@, JsonV::Str(v.language)),
            ("collectionId"@, JsonV::Str(v.collection_id)),
            ("definitions"@, JsonV::Arr(spec_encode_definitions(v.definitions))),
            ("exampleSentences"@, JsonV::Arr(
                v.example_sentences.map_values(|s: Seq<char>| JsonV::Str(s)),
            )),
            ("topics"@, JsonV::Arr(v.topics.map_values(|s: Seq<char>| JsonV::Str(s)))),
            ("tags"@, JsonV::Arr(v.tags.map_values(|s: Seq<char>| JsonV::Str(s)))),
            ("relatedWords"@, JsonV::Arr(spec_encode_related_words(v.related_words))),
            ("createdAt"@, JsonV::Int(v.created_at)),
            ("updatedAt"@, JsonV::Int(v.updated_at)),
            ("syncVersion"@, JsonV::Int(v.meta.sync_version)),
        ] + (match v.audio_url {
            Some(a) => seq![("audioUrl"@, JsonV::Str(a))],
            None => Seq::empty(),
        }) + (match v.concept {
            Some(c) => seq![("concept"@, JsonV::Str(c))],
            None => Seq::empty(),
        }),
    )
}

/// Build the payload of an outbound vocabulary record.
pub fn encode_vocabulary(v: &VocabularyRow) -> (r: JsonValue)
    ensures
        r.deep_view() == spec_encode_vocabulary(v.deep_view()),
{
    let mut obj = obj_new();
    obj = obj_push(obj, "id", JsonValue::Str(v.id.clone()));
    obj = obj_push(obj, "word", JsonValue::Str(v.word.clone()));
    obj = obj_push(obj, "wordType", JsonValue::Str(word_type_to_string(&v.word_type).to_owned()));
    obj = obj_push(obj, "level", JsonValue::Str(v.level.clone()));
    obj = obj_push(obj, "ipa", JsonValue::Str(v.ipa.clone()));
    obj = obj_push(obj, "language", JsonValue::Str(v.language.clone()));
    obj = obj_push(obj, "collectionId", JsonValue::Str(v.collection_id.clone()));
    let defs = encode_definitions(&v.definitions);
    proof {
        crate::json::lemma_arr_deep_view(defs);
    }
    obj = obj_push(obj, "definitions", JsonValue::Arr(defs));
    let sentences = crate::schema::strs_to_values_of(&v.example_sentences);
    proof {
        crate::json::lemma_arr_deep_view(sentences);
    }
    obj = obj_push(obj, "exampleSentences", JsonValue::Arr(sentences));
    let topics = crate::schema::strs_to_values_of(&v.topics);
    proof {
        crate::json::lemma_arr_deep_view(topics);
    }
    obj = obj_push(obj, "topics", JsonValue::Arr(topics));
    let tags = crate::schema::strs_to_values_of(&v.tags);
    proof {
        crate::json::lemma_arr_deep_view(tags);
    }
    obj = obj_push(obj, "tags", JsonValue::Arr(tags));
    let related = encode_related_words(&v.related_words);
    proof {
        crate::json::lemma_arr_deep_view(related);
    }
    obj = obj_push(obj, "relatedWords", JsonValue::Arr(related));
    obj = obj_push(obj, "createdAt", JsonValue::Int(v.created_at));
    obj = obj_push(obj, "updatedAt", JsonValue::Int(v.updated_at));
    obj = obj_push(obj, "syncVersion", JsonValue::Int(v.meta.sync_version));
    match &v.audio_url {
        Some(a) => {
            obj = obj_push(obj, "audioUrl", JsonValue::Str(a.clone()));
        },
        None => {},
    }
    match &v.concept {
        Some(c) => {
            obj = obj_push(obj, "concept", JsonValue::Str(c.clone()));
        },
        None => {},
    }
    proof {
        assert(obj.deep_view()->Obj_0 =~= spec_encode_vocabulary(v.deep_view())->Obj_0);
    }
    obj
}

// ---------------------------------------------------------------------------
// The codec round trip: decoding an encoded row recovers it.
// ---------------------------------------------------------------------------

/// Turning a sequence of strings into string payload values and collecting
/// the strings back is the identity.
proof fn lemma_strings_of_map(ss: Seq<Seq<char>>)
    ensures
        crate::json::spec_strings_of(ss.map_values(|s: Seq<char>| JsonV::Str(s))) == ss,
    decreases ss.len(),
{
    let m = ss.map_values(|s: Seq<char>| JsonV::Str(s));
    if ss.len() == 0 {
        assert(m =~= Seq::<JsonV>::empty());
        assert(crate::json::spec_strings_of(m) =~= ss);
    } else {
        lemma_strings_of_map(ss.drop_first());
        assert(m.drop_first() =~= ss.drop_first().map_values(|s: Seq<char>| JsonV::Str(s)));
        assert(crate::json::spec_strings_of(m) =~= ss);
    }
}

/// Decoding an encoded definition recovers it.
proof fn lemma_decode_encode_definitions(ds: Seq<DefinitionV>)
    ensures
        spec_decode_definitions(spec_encode_definitions(ds)) == ds,
{
    reveal_strlit("meaning");
    reveal_strlit("translation");
    reveal_strlit("example");
    assert("meaning"@[0] != "example"@[0]);
    assert(!("meaning"@ =~= "translation"@));
    assert(!("meaning"@ =~= "example"@));
    assert(!("translation"@ =~= "example"@));
    assert forall|i: int|
        0 <= i < ds.len() implies #[trigger] spec_decode_definitions(spec_encode_definitions(ds))[i]
        == ds[i] by {
        let d = ds[i];
        let f = spec_encode_definition(d)->Obj_0;
        assert(f[0] == ("meaning"@, JsonV::Str(d.meaning)));
        lemma_fields_get_found(f, "meaning"@, 0);
        assert forall|j: int| 0 <= j < 1 implies (#[trigger] f[j]).0 != "translation"@ by {
            assert(f[0].0 == "meaning"@);
        }
        lemma_fields_get_found(f, "translation"@, 1);
        assert forall|j: int| 0 <= j < 2 implies (#[trigger] f[j]).0 != "example"@ by {
            if j == 0 {
                assert(f[0].0 == "meaning"@);
            }
            if j == 1 {
                assert(f[1].0 == "translation"@);
            }
        }
        lemma_fields_get_found(f, "example"@, 2);
        assert(spec_decode_definition(spec_encode_definition(d)) =~= d);
    }
    assert(spec_decode_definitions(spec_encode_definitions(ds)) =~= ds);
}

/// Decoding an encoded related-word reference recovers it.
proof fn lemma_decode_encode_related(ws: Seq<RelatedWordV>)
    ensures
        spec_decode_related_words(spec_encode_related_words(ws)) == ws,
{
    reveal_strlit("wordId");
    reveal_strlit("word");
    reveal_strlit("relationship");
    assert(!("wordId"@ =~= "word"@));
    assert(!("wordId"@ =~= "relationship"@));
    assert(!("word"@ =~= "relationship"@));
    assert forall|i: int|
        0 <= i < ws.len() implies #[trigger] spec_decode_related_words(
        spec_encode_related_words(ws),
    )[i] == ws[i] by {
        let w = ws[i];
        let f = spec_encode_related(w)->Obj_0;
        assert(f[0] == ("wordId"@, JsonV::Str(w.word_id)));
        lemma_fields_get_found(f, "wordId"@, 0);
        assert forall|j: int| 0 <= j < 1 implies (#[trigger] f[j]).0 != "word"@ by {
            assert(f[0].0 == "wordId"@);
        }
        lemma_fields_get_found(f, "word"@, 1);
        assert forall|j: int| 0 <= j < 2 implies (#[trigger] f[j]).0 != "relationship"@ by {
            if j == 0 {
                assert(f[0].0 == "wordId"@);
            }
            if j == 1 {
                assert(f[1].0 == "word"@);
            }
        }
        lemma_fields_get_found(f, "relationship"@, 2);
        crate::model::lemma_word_spellings_invert(crate::model::WordType::NA, w.relationship);
        assert(spec_decode_related(spec_encode_related(w)) =~= w);
    }
    assert(spec_decode_related_words(spec_encode_related_words(ws)) =~= ws);
}

/// The payload key at each fixed position of an encoded vocabulary.
spec fn vocab_payload_key(j: int) -> Seq<char> {
    if j == 0 {
        "id"@
    } else if j == 1 {
        "word"@
    } else if j == 2 {
        "wordType"@
    } else if j == 3 {
        "level"@
    } else if j == 4 {
        "ipa"@
    } else if j == 5 {
        "language"@
    } else if j == 6 {
        "collectionId"@
    } else if j == 7 {
        "definitions"@
    } else if j == 8 {
        "exampleSentences"@
    } else if j == 9 {
        "topics"@
    } else if j == 10 {
        "tags"@
    } else if j == 11 {
        "relatedWords"@
    } else if j == 12 {
        "createdAt"@
    } else if j == 13 {
        "updatedAt"@
    } else if j == 14 {
        "syncVersion"@
    } else {
        Seq::empty()
    }
}

/// The record codec round trip: decoding a row's encoded payload recovers
/// every domain field of the row. What travels on the wire is exactly
/// what the row held.
#[verifier::rlimit(100)]
pub proof fn lemma_codec_round_trip(v: VocabularyRowV, version: i64, now: i64)
    ensures
        ({
            let w = spec_vocab_inserted(spec_encode_vocabulary(v), v.id, version, now);
            &&& w.id == v.id
            &&& w.word == v.word
            &&& w.word_type == v.word_type
            &&& w.level == v.level
            &&& w.ipa == v.ipa
            &&& w.audio_url == v.audio_url
            &&& w.concept == v.concept
            &&& w.language == v.language
            &&& w.collection_id == v.collection_id
            &&& w.definitions == v.definitions
            &&& w.example_sentences == v.example_sentences
            &&& w.topics == v.topics
            &&& w.tags == v.tags
            &&& w.related_words == v.related_words
        }),
{
    let p = spec_encode_vocabulary(v);
    let fields = p->Obj_0;
    reveal_strlit("id");
    reveal_strlit("word");
    reveal_strlit("wordType");
    reveal_strlit("level");
    reveal_strlit("ipa");
    reveal_strlit("language");
    reveal_strlit("collectionId");
    reveal_strlit("definitions");
    reveal_strlit("exampleSentences");
    reveal_strlit("topics");
    reveal_strlit("tags");
    reveal_strlit("relatedWords");
    reveal_strlit("createdAt");
    reveal_strlit("updatedAt");
    reveal_strlit("syncVersion");
    reveal_strlit("audioUrl");
    reveal_strlit("concept");
    assert(!("id"@ =~= "word"@));
    assert(!("id"@ =~= "wordType"@));
    assert(!("word"@ =~= "wordType"@));
    assert(!("id"@ =~= "level"@));
    assert(!("word"@ =~= "level"@));
    assert(!("wordType"@ =~= "level"@));
    assert(!("id"@ =~= "ipa"@));
    assert(!("word"@ =~= "ipa"@));
    assert(!("wordType"@ =~= "ipa"@));
    assert(!("level"@ =~= "ipa"@));
    assert(!("id"@ =~= "language"@));
    assert(!("word"@ =~= "language"@));
    assert("wordType"@[0] != "language"@[0]);
    assert(!("wordType"@ =~= "language"@));
    assert(!("level"@ =~= "language"@));
    assert(!("ipa"@ =~= "language"@));
    assert(!("id"@ =~= "collectionId"@));
    assert(!("word"@ =~= "collectionId"@));
    assert(!("wordType"@ =~= "collectionId"@));
    assert(!("level"@ =~= "collectionId"@));
    assert(!("ipa"@ =~= "collectionId"@));
    assert(!("language"@ =~= "collectionId"@));
    assert(!("id"@ =~= "definitions"@));
    assert(!("word"@ =~= "definitions"@));
    assert(!("wordType"@ =~= "definitions"@));
    assert(!("level"@ =~= "definitions"@));
    assert(!("ipa"@ =~= "definitions"@));
    assert(!("language"@ =~= "definitions"@));
    assert(!("collectionId"@ =~= "definitions"@));
    assert(!("id"@ =~= "exampleSentences"@));
    assert(!("word"@ =~= "exampleSentences"@));
    assert(!("wordType"@ =~= "exampleSentences"@));
    assert(!("level"@ =~= "exampleSentences"@));
    assert(!("ipa"@ =~= "exampleSentences"@));
    assert(!("language"@ =~= "exampleSentences"@));
    assert(!("collectionId"@ =~= "exampleSentences"@));
    assert(!("definitions"@ =~= "exampleSentences"@));
    assert(!("id"@ =~= "topics"@));
    assert(!("word"@ =~= "topics"@));
    assert(!("wordType"@ =~= "topics"@));
    assert(!("level"@ =~= "topics"@));
    assert(!("ipa"@ =~= "topics"@));
    assert(!("language"@ =~= "topics"@));
    assert(!("collectionId"@ =~= "topics"@));
    assert(!("definitions"@ =~= "topics"@));
    assert(!("exampleSentences"@ =~= "topics"@));
    assert(!("id"@ =~= "tags"@));
    assert("word"@[0] != "tags"@[0]);
    assert(!("word"@ =~= "tags"@));
    assert(!("wordType"@ =~= "tags"@));
    assert(!("level"@ =~= "tags"@));
    assert(!("ipa"@ =~= "tags"@));
    assert(!("language"@ =~= "tags"@));
    assert(!("collectionId"@ =~= "tags"@));
    assert(!("definitions"@ =~= "tags"@));
    assert(!("exampleSentences"@ =~= "tags"@));
    assert(!("topics"@ =~= "tags"@));
    assert(!("id"@ =~= "relatedWords"@));
    assert(!("word"@ =~= "relatedWords"@));
    assert(!("wordType"@ =~= "relatedWords"@));
    assert(!("level"@ =~= "relatedWords"@));
    assert(!("ipa"@ =~= "relatedWords"@));
    assert(!("language"@ =~= "relatedWords"@));
    assert("collectionId"@[0] != "relatedWords"@[0]);
    assert(!("collectionId"@ =~= "relatedWords"@));
    assert(!("definitions"@ =~= "relatedWords"@));
    assert(!("exampleSentences"@ =~= "relatedWords"@));
    assert(!("topics"@ =~= "relatedWords"@));
    assert(!("tags"@ =~= "relatedWords"@));
    assert(!("id"@ =~= "audioUrl"@));
    assert(!("word"@ =~= "audioUrl"@));
    assert("wordType"@[0] != "audioUrl"@[0]);
    assert(!("wordType"@ =~= "audioUrl"@));
    assert(!("level"@ =~= "audioUrl"@));
    assert(!("ipa"@ =~= "audioUrl"@));
    assert("language"@[0] != "audioUrl"@[0]);
    assert(!("language"@ =~= "audioUrl"@));
    assert(!("collectionId"@ =~= "audioUrl"@));
    assert(!("definitions"@ =~= "audioUrl"@));
    assert(!("exampleSentences"@ =~= "audioUrl"@));
    assert(!("topics"@ =~= "audioUrl"@));
    assert(!("tags"@ =~= "audioUrl"@));
    assert(!("relatedWords"@ =~= "audioUrl"@));
    assert(!("createdAt"@ =~= "audioUrl"@));
    assert(!("updatedAt"@ =~= "audioUrl"@));
    assert(!("syncVersion"@ =~= "audioUrl"@));
    assert(!("id"@ =~= "concept"@));
    assert(!("word"@ =~= "concept"@));
    assert(!("wordType"@ =~= "concept"@));
    assert(!("level"@ =~= "concept"@));
    assert(!("ipa"@ =~= "concept"@));
    assert(!("language"@ =~= "concept"@));
    assert(!("collectionId"@ =~= "concept"@));
    assert(!("definitions"@ =~= "concept"@));
    assert(!("exampleSentences"@ =~= "concept"@));
    assert(!("topics"@ =~= "concept"@));
    assert(!("tags"@ =~= "concept"@));
    assert(!("relatedWords"@ =~= "concept"@));
    assert(!("createdAt"@ =~= "concept"@));
    assert(!("updatedAt"@ =~= "concept"@));
    assert(!("syncVersion"@ =~= "concept"@));
    assert(!("audioUrl"@ =~= "concept"@));

    // every fixed position carries its key
    assert forall|j: int| 0 <= j < 15 implies (#[trigger] fields[j]).0 == vocab_payload_key(j) by {
        if j == 0 {
            assert(fields[0].0 == "id"@);
        }
        if j == 1 {
            assert(fields[1].0 == "word"@);
        }
        if j == 2 {
            assert(fields[2].0 == "wordType"@);
        }
        if j == 3 {
            assert(fields[3].0 == "level"@);
        }
        if j == 4 {
            assert(fields[4].0 == "ipa"@);
        }
        if j == 5 {
            assert(fields[5].0 == "language"@);
        }
        if j == 6 {
            assert(fields[6].0 == "collectionId"@);
        }
        if j == 7 {
            assert(fields[7].0 == "definitions"@);
        }
        if j == 8 {
            assert(fields[8].0 == "exampleSentences"@);
        }
        if j == 9 {
            assert(fields[9].0 == "topics"@);
        }
        if j == 10 {
            assert(fields[10].0 == "tags"@);
        }
        if j == 11 {
            assert(fields[11].0 == "relatedWords"@);
        }
        if j == 12 {
            assert(fields[12].0 == "createdAt"@);
        }
        if j == 13 {
            assert(fields[13].0 == "updatedAt"@);
        }
        if j == 14 {
            assert(fields[14].0 == "syncVersion"@);
        }
    }

    assert(fields[1] == ("word"@, JsonV::Str(v.word)));
    assert forall|j: int| 0 <= j < 1 implies (#[trigger] fields[j]).0 != "word"@ by {
        assert(fields[j].0 == vocab_payload_key(j));
    }
    lemma_fields_get_found(fields, "word"@, 1);

    assert(fields[2] == ("wordType"@, JsonV::Str(spec_word_type_string(v.word_type))));
    assert forall|j: int| 0 <= j < 2 implies (#[trigger] fields[j]).0 != "wordType"@ by {
        assert(fields[j].0 == vocab_payload_key(j));
    }
    lemma_fields_get_found(fields, "wordType"@, 2);

    assert(fields[3] == ("level"@, JsonV::Str(v.level)));
    assert forall|j: int| 0 <= j < 3 implies (#[trigger] fields[j]).0 != "level"@ by {
        assert(fields[j].0 == vocab_payload_key(j));
    }
    lemma_fields_get_found(fields, "level"@, 3);

    assert(fields[4] == ("ipa"@, JsonV::Str(v.ipa)));
    assert forall|j: int| 0 <= j < 4 implies (#[trigger] fields[j]).0 != "ipa"@ by {
        assert(fields[j].0 == vocab_payload_key(j));
    }
    lemma_fields_get_found(fields, "ipa"@, 4);

    assert(fields[5] == ("language"@, JsonV::Str(v.language)));
    assert forall|j: int| 0 <= j < 5 implies (#[trigger] fields[j]).0 != "language"@ by {
        assert(fields[j].0 == vocab_payload_key(j));
    }
    lemma_fields_get_found(fields, "language"@, 5);

    assert(fields[6] == ("collectionId"@, JsonV::Str(v.collection_id)));
    assert forall|j: int| 0 <= j < 6 implies (#[trigger] fields[j]).0 != "collectionId"@ by {
        assert(fields[j].0 == vocab_payload_key(j));
    }
    lemma_fields_get_found(fields, "collectionId"@, 6);

    assert(fields[7] == ("definitions"@, JsonV::Arr(spec_encode_definitions(v.definitions))));
    assert forall|j: int| 0 <= j < 7 implies (#[trigger] fields[j]).0 != "definitions"@ by {
        assert(fields[j].0 == vocab_payload_key(j));
    }
    lemma_fields_get_found(fields, "definitions"@, 7);

    assert(fields[8] == ("exampleSentences"@, JsonV::Arr(v.example_sentences.map_values(|s: Seq<char>| JsonV::Str(s)))));
    assert forall|j: int| 0 <= j < 8 implies (#[trigger] fields[j]).0 != "exampleSentences"@ by {
        assert(fields[j].0 == vocab_payload_key(j));
    }
    lemma_fields_get_found(fields, "exampleSentences"@, 8);

    assert(fields[9] == ("topics"@, JsonV::Arr(v.topics.map_values(|s: Seq<char>| JsonV::Str(s)))));
    assert forall|j: int| 0 <= j < 9 implies (#[trigger] fields[j]).0 != "topics"@ by {
        assert(fields[j].0 == vocab_payload_key(j));
    }
    lemma_fields_get_found(fields, "topics"@, 9);

    assert(fields[10] == ("tags"@, JsonV::Arr(v.tags.map_values(|s: Seq<char>| JsonV::Str(s)))));
    assert forall|j: int| 0 <= j < 10 implies (#[trigger] fields[j]).0 != "tags"@ by {
        assert(fields[j].0 == vocab_payload_key(j));
    }
    lemma_fields_get_found(fields, "tags"@, 10);

    assert(fields[11] == ("relatedWords"@, JsonV::Arr(spec_encode_related_words(v.related_words))));
    assert forall|j: int| 0 <= j < 11 implies (#[trigger] fields[j]).0 != "relatedWords"@ by {
        assert(fields[j].0 == vocab_payload_key(j));
    }
    lemma_fields_get_found(fields, "relatedWords"@, 11);

    match (v.audio_url, v.concept) {
        (Some(a), Some(c)) => {
            assert(fields.len() == 17);
            assert(fields[15] == ("audioUrl"@, JsonV::Str(a)));
            assert(fields[16] == ("concept"@, JsonV::Str(c)));
            assert forall|j: int| 0 <= j < 15 implies (#[trigger] fields[j]).0 != "audioUrl"@ by {
                assert(fields[j].0 == vocab_payload_key(j));
            }
            lemma_fields_get_found(fields, "audioUrl"@, 15);
            assert forall|j: int| 0 <= j < 16 implies (#[trigger] fields[j]).0 != "concept"@ by {
                if j < 15 {
                    assert(fields[j].0 == vocab_payload_key(j));
                } else {
                    assert(fields[15].0 == "audioUrl"@);
                }
            }
            lemma_fields_get_found(fields, "concept"@, 16);
        },
        (Some(a), None) => {
            assert(fields.len() == 16);
            assert(fields[15] == ("audioUrl"@, JsonV::Str(a)));
            assert forall|j: int| 0 <= j < 15 implies (#[trigger] fields[j]).0 != "audioUrl"@ by {
                assert(fields[j].0 == vocab_payload_key(j));
            }
            lemma_fields_get_found(fields, "audioUrl"@, 15);
            assert forall|j: int| 0 <= j < 16 implies (#[trigger] fields[j]).0 != "concept"@ by {
                if j < 15 {
                    assert(fields[j].0 == vocab_payload_key(j));
                } else {
                    assert(fields[15].0 == "audioUrl"@);
                }
            }
            lemma_fields_get_missing(fields, "concept"@);
        },
        (None, Some(c)) => {
            assert(fields.len() == 16);
            assert(fields[15] == ("concept"@, JsonV::Str(c)));
            assert forall|j: int| 0 <= j < 16 implies (#[trigger] fields[j]).0 != "audioUrl"@ by {
                if j < 15 {
                    assert(fields[j].0 == vocab_payload_key(j));
                } else {
                    assert(fields[15].0 == "concept"@);
                }
            }
            lemma_fields_get_missing(fields, "audioUrl"@);
            assert forall|j: int| 0 <= j < 15 implies (#[trigger] fields[j]).0 != "concept"@ by {
                assert(fields[j].0 == vocab_payload_key(j));
            }
            lemma_fields_get_found(fields, "concept"@, 15);
        },
        (None, None) => {
            assert(fields.len() == 15);
            assert forall|j: int| 0 <= j < 15 implies (#[trigger] fields[j]).0 != "audioUrl"@ by {
                assert(fields[j].0 == vocab_payload_key(j));
            }
            lemma_fields_get_missing(fields, "audioUrl"@);
            assert forall|j: int| 0 <= j < 15 implies (#[trigger] fields[j]).0 != "concept"@ by {
                assert(fields[j].0 == vocab_payload_key(j));
            }
            lemma_fields_get_missing(fields, "concept"@);
        },
    }

    crate::model::lemma_word_spellings_invert(v.word_type, crate::model::WordRelationship::Related);
    lemma_decode_encode_definitions(v.definitions);
    lemma_decode_encode_related(v.related_words);
    lemma_strings_of_map(v.example_sentences);
    lemma_strings_of_map(v.topics);
    lemma_strings_of_map(v.tags);
}

/// The collection codec round trip: decoding an encoded collection
/// recovers its name, description, language and visibility. The share
/// origin is not round-tripped: it is re-derived from the owner recorded
/// on the wire, as the receiving side's rules demand.
pub proof fn lemma_collection_codec_round_trip(
    c: CollectionRowV,
    owner: Option<Seq<char>>,
    user: Option<Seq<char>>,
    version: i64,
    now: i64,
)
    ensures
        ({
            let w = spec_collection_inserted(
                spec_encode_collection(c, owner),
                c.id,
                user,
                version,
                now,
            );
            &&& w.id == c.id
            &&& w.name == c.name
            &&& w.description == c.description
            &&& w.language == c.language
            &&& w.is_public == c.is_public
        }),
{
    let p = spec_encode_collection(c, owner);
    let fields = p->Obj_0;
    reveal_strlit("id");
    reveal_strlit("name");
    reveal_strlit("description");
    reveal_strlit("language");
    reveal_strlit("isPublic");
    assert(!("id"@ =~= "name"@));
    assert(!("id"@ =~= "description"@));
    assert(!("name"@ =~= "description"@));
    assert(!("id"@ =~= "language"@));
    assert(!("name"@ =~= "language"@));
    assert(!("description"@ =~= "language"@));
    assert(!("id"@ =~= "isPublic"@));
    assert(!("name"@ =~= "isPublic"@));
    assert(!("description"@ =~= "isPublic"@));
    assert("language"@[0] != "isPublic"@[0]);
    assert(!("language"@ =~= "isPublic"@));

    assert(fields[1] == ("name"@, JsonV::Str(c.name)));
    assert forall|j: int| 0 <= j < 1 implies (#[trigger] fields[j]).0 != "name"@ by {
        if j == 0 {
            assert(fields[0].0 == "id"@);
        }
    }
    lemma_fields_get_found(fields, "name"@, 1);

    assert(fields[2] == ("description"@, JsonV::Str(c.description)));
    assert forall|j: int| 0 <= j < 2 implies (#[trigger] fields[j]).0 != "description"@ by {
        if j == 0 {
            assert(fields[0].0 == "id"@);
        }
        if j == 1 {
            assert(fields[1].0 == "name"@);
        }
    }
    lemma_fields_get_found(fields, "description"@, 2);

    assert(fields[3] == ("language"@, JsonV::Str(c.language)));
    assert forall|j: int| 0 <= j < 3 implies (#[trigger] fields[j]).0 != "language"@ by {
        if j == 0 {
            assert(fields[0].0 == "id"@);
        }
        if j == 1 {
            assert(fields[1].0 == "name"@);
        }
        if j == 2 {
            assert(fields[2].0 == "description"@);
        }
    }
    lemma_fields_get_found(fields, "language"@, 3);

    assert(fields[4] == ("isPublic"@, JsonV::Bool(c.is_public)));
    assert forall|j: int| 0 <= j < 4 implies (#[trigger] fields[j]).0 != "isPublic"@ by {
        if j == 0 {
            assert(fields[0].0 == "id"@);
        }
        if j == 1 {
            assert(fields[1].0 == "name"@);
        }
        if j == 2 {
            assert(fields[2].0 == "description"@);
        }
        if j == 3 {
            assert(fields[3].0 == "language"@);
        }
    }
    lemma_fields_get_found(fields, "isPublic"@, 4);

}

} // verus!
