//! Domain vocabulary of the store: word classification enums, their wire
//! spellings, and the small request/result structs that callers hand to the
//! store's own CRUD operations.

use vstd::prelude::*;

use crate::util::str_eq;

verus! {

/// Grammatical class of a vocabulary entry.
#[derive(Clone, Copy, Debug, PartialEq, Eq, Structural)]
pub enum WordType {
    NA,
    Noun,
    Verb,
    Adjective,
    Adverb,
    Pronoun,
    Preposition,
    Conjunction,
    Interjection,
    Phrase,
}

/// How one vocabulary entry relates to another.
#[derive(Clone, Copy, Debug, PartialEq, Eq, Structural)]
pub enum WordRelationship {
    Synonym,
    Antonym,
    Similar,
    Related,
    Derivative,
}

/// Kind of practice exercise.
#[derive(Clone, Copy, Debug, PartialEq, Eq, Structural)]
pub enum PracticeMode {
    Flashcard,
    FillWord,
    MultipleChoice,
}

/// Spaced-repetition scheduling algorithm.
#[derive(Clone, Copy, Debug, PartialEq, Eq, Structural)]
pub enum SpacedRepetitionAlgorithm {
    SM2,
    ModifiedSM2,
    Simple,
}

impl DeepView for WordType {
    type V = WordType;

    open spec fn deep_view(&self) -> WordType {
        *self
    }
}

impl DeepView for WordRelationship {
    type V = WordRelationship;

    open spec fn deep_view(&self) -> WordRelationship {
        *self
    }
}

impl DeepView for PracticeMode {
    type V = PracticeMode;

    open spec fn deep_view(&self) -> PracticeMode {
        *self
    }
}

impl DeepView for SpacedRepetitionAlgorithm {
    type V = SpacedRepetitionAlgorithm;

    open spec fn deep_view(&self) -> SpacedRepetitionAlgorithm {
        *self
    }
}

pub open spec fn spec_word_type_string(t: WordType) -> Seq<char> {
    match t {
        WordType::NA => "n/a"@,
        WordType::Noun => "noun"@,
        WordType::Verb => "verb"@,
        WordType::Adjective => "adjective"@,
        WordType::Adverb => "adverb"@,
        WordType::Pronoun => "pronoun"@,
        WordType::Preposition => "preposition"@,
        WordType::Conjunction => "conjunction"@,
        WordType::Interjection => "interjection"@,
        WordType::Phrase => "phrase"@,
    }
}

pub open spec fn spec_parse_word_type(s: Seq<char>) -> WordType {
    if s == spec_word_type_string(WordType::Noun) {
        WordType::Noun
    } else if s == spec_word_type_string(WordType::Verb) {
        WordType::Verb
    } else if s == spec_word_type_string(WordType::Adjective) {
        WordType::Adjective
    } else if s == spec_word_type_string(WordType::Adverb) {
        WordType::Adverb
    } else if s == spec_word_type_string(WordType::Pronoun) {
        WordType::Pronoun
    } else if s == spec_word_type_string(WordType::Preposition) {
        WordType::Preposition
    } else if s == spec_word_type_string(WordType::Conjunction) {
        WordType::Conjunction
    } else if s == spec_word_type_string(WordType::Interjection) {
        WordType::Interjection
    } else if s == spec_word_type_string(WordType::Phrase) {
        WordType::Phrase
    } else {
        WordType::NA
    }
}

/// Parse a wire spelling into a word type; unknown spellings fall back to
/// the unclassified kind.
pub fn parse_word_type(s: &str) -> (r: WordType)
    ensures
        r == spec_parse_word_type(s@),
{
    if str_eq(s, "noun") {
        WordType::Noun
    } else if str_eq(s, "verb") {
        WordType::Verb
    } else if str_eq(s, "adjective") {
        WordType::Adjective
    } else if str_eq(s, "adverb") {
        WordType::Adverb
    } else if str_eq(s, "pronoun") {
        WordType::Pronoun
    } else if str_eq(s, "preposition") {
        WordType::Preposition
    } else if str_eq(s, "conjunction") {
        WordType::Conjunction
    } else if str_eq(s, "interjection") {
        WordType::Interjection
    } else if str_eq(s, "phrase") {
        WordType::Phrase
    } else {
        WordType::NA
    }
}

/// Lowercase wire spelling of a word type.
pub fn word_type_to_string(word_type: &WordType) -> (r: &'static str)
    ensures
        r@ == spec_word_type_string(*word_type),
{
    match word_type {
        WordType::NA => "n/a",
        WordType::Noun => "noun",
        WordType::Verb => "verb",
        WordType::Adjective => "adjective",
        WordType::Adverb => "adverb",
        WordType::Pronoun => "pronoun",
        WordType::Preposition => "preposition",
        WordType::Conjunction => "conjunction",
        WordType::Interjection => "interjection",
        WordType::Phrase => "phrase",
    }
}

pub open spec fn spec_word_relationship_string(t: WordRelationship) -> Seq<char> {
    match t {
        WordRelationship::Synonym => "synonym"@,
        WordRelationship::Antonym => "antonym"@,
        WordRelationship::Similar => "similar"@,
        WordRelationship::Related => "related"@,
        WordRelationship::Derivative => "derivative"@,
    }
}

pub open spec fn spec_parse_word_relationship(s: Seq<char>) -> WordRelationship {
    if s == spec_word_relationship_string(WordRelationship::Synonym) {
        WordRelationship::Synonym
    } else if s == spec_word_relationship_string(WordRelationship::Antonym) {
        WordRelationship::Antonym
    } else if s == spec_word_relationship_string(WordRelationship::Similar) {
        WordRelationship::Similar
    } else if s == spec_word_relationship_string(WordRelationship::Derivative) {
        WordRelationship::Derivative
    } else {
        WordRelationship::Related
    }
}

/// Parse a wire spelling into a word relationship; unknown spellings fall
/// back to the generic related kind.
pub fn parse_word_relationship(s: &str) -> (r: WordRelationship)
    ensures
        r == spec_parse_word_relationship(s@),
{
    if str_eq(s, "synonym") {
        WordRelationship::Synonym
    } else if str_eq(s, "antonym") {
        WordRelationship::Antonym
    } else if str_eq(s, "similar") {
        WordRelationship::Similar
    } else if str_eq(s, "derivative") {
        WordRelationship::Derivative
    } else {
        WordRelationship::Related
    }
}

/// Lowercase wire spelling of a word relationship.
pub fn word_relationship_to_string(relationship: &WordRelationship) -> (r: &'static str)
    ensures
        r@ == spec_word_relationship_string(*relationship),
{
    match relationship {
        WordRelationship::Synonym => "synonym",
        WordRelationship::Antonym => "antonym",
        WordRelationship::Similar => "similar",
        WordRelationship::Related => "related",
        WordRelationship::Derivative => "derivative",
    }
}

pub open spec fn spec_practice_mode_string(m: PracticeMode) -> Seq<char> {
    match m {
        PracticeMode::Flashcard => "flashcard"@,
        PracticeMode::FillWord => "fillword"@,
        PracticeMode::MultipleChoice => "multiplechoice"@,
    }
}

pub open spec fn spec_parse_practice_mode(s: Seq<char>) -> PracticeMode {
    if s == spec_practice_mode_string(PracticeMode::FillWord) {
        PracticeMode::FillWord
    } else if s == spec_practice_mode_string(PracticeMode::MultipleChoice) {
        PracticeMode::MultipleChoice
    } else {
        PracticeMode::Flashcard
    }
}

/// Parse a wire spelling into a practice mode; unknown spellings fall back
/// to flashcards.
pub fn parse_practice_mode(s: &str) -> (r: PracticeMode)
    ensures
        r == spec_parse_practice_mode(s@),
{
    if str_eq(s, "fillword") {
        PracticeMode::FillWord
    } else if str_eq(s, "multiplechoice") {
        PracticeMode::MultipleChoice
    } else {
        PracticeMode::Flashcard
    }
}

/// Lowercase wire spelling of a practice mode.
pub fn practice_mode_to_string(mode: &PracticeMode) -> (r: &'static str)
    ensures
        r@ == spec_practice_mode_string(*mode),
{
    match mode {
        PracticeMode::Flashcard => "flashcard",
        PracticeMode::FillWord => "fillword",
        PracticeMode::MultipleChoice => "multiplechoice",
    }
}

/// The two wire spellings of each word type and relationship map back to
/// the value they were printed from.
pub proof fn lemma_word_spellings_invert(t: WordType, r: WordRelationship)
    ensures
        spec_parse_word_type(spec_word_type_string(t)) == t,
        spec_parse_word_relationship(spec_word_relationship_string(r)) == r,
{
    reveal_strlit("n/a");
    reveal_strlit("noun");
    reveal_strlit("verb");
    reveal_strlit("adjective");
    reveal_strlit("adverb");
    reveal_strlit("pronoun");
    reveal_strlit("preposition");
    reveal_strlit("conjunction");
    reveal_strlit("interjection");
    reveal_strlit("phrase");
    reveal_strlit("synonym");
    reveal_strlit("antonym");
    reveal_strlit("similar");
    reveal_strlit("related");
    reveal_strlit("derivative");
    assert(!("n/a"@ =~= "noun"@));
    assert(!("n/a"@ =~= "verb"@));
    assert(!("n/a"@ =~= "adjective"@));
    assert(!("n/a"@ =~= "adverb"@));
    assert(!("n/a"@ =~= "pronoun"@));
    assert(!("n/a"@ =~= "preposition"@));
    assert(!("n/a"@ =~= "conjunction"@));
    assert(!("n/a"@ =~= "interjection"@));
    assert(!("n/a"@ =~= "phrase"@));
    assert("noun"@[0] != "verb"@[0]);
    assert(!("noun"@ =~= "verb"@));
    assert(!("noun"@ =~= "adjective"@));
    assert(!("noun"@ =~= "adverb"@));
    assert(!("noun"@ =~= "pronoun"@));
    assert(!("noun"@ =~= "preposition"@));
    assert(!("noun"@ =~= "conjunction"@));
    assert(!("noun"@ =~= "interjection"@));
    assert(!("noun"@ =~= "phrase"@));
    assert(!("verb"@ =~= "adjective"@));
    assert(!("verb"@ =~= "adverb"@));
    assert(!("verb"@ =~= "pronoun"@));
    assert(!("verb"@ =~= "preposition"@));
    assert(!("verb"@ =~= "conjunction"@));
    assert(!("verb"@ =~= "interjection"@));
    assert(!("verb"@ =~= "phrase"@));
    assert(!("adjective"@ =~= "adverb"@));
    assert(!("adjective"@ =~= "pronoun"@));
    assert(!("adjective"@ =~= "preposition"@));
    assert(!("adjective"@ =~= "conjunction"@));
    assert(!("adjective"@ =~= "interjection"@));
    assert(!("adjective"@ =~= "phrase"@));
    assert(!("adverb"@ =~= "pronoun"@));
    assert(!("adverb"@ =~= "preposition"@));
    assert(!("adverb"@ =~= "conjunction"@));
    assert(!("adverb"@ =~= "interjection"@));
    assert("adverb"@[0] != "phrase"@[0]);
    assert(!("adverb"@ =~= "phrase"@));
    assert(!("pronoun"@ =~= "preposition"@));
    assert(!("pronoun"@ =~= "conjunction"@));
    assert(!("pronoun"@ =~= "interjection"@));
    assert(!("pronoun"@ =~= "phrase"@));
    assert("preposition"@[0] != "conjunction"@[0]);
    assert(!("preposition"@ =~= "conjunction"@));
    assert(!("preposition"@ =~= "interjection"@));
    assert(!("preposition"@ =~= "phrase"@));
    assert(!("conjunction"@ =~= "interjection"@));
    assert(!("conjunction"@ =~= "phrase"@));
    assert(!("interjection"@ =~= "phrase"@));
    assert("synonym"@[0] != "antonym"@[0]);
    assert(!("synonym"@ =~= "antonym"@));
    assert("synonym"@[1] != "similar"@[1]);
    assert(!("synonym"@ =~= "similar"@));
    assert("synonym"@[0] != "related"@[0]);
    assert(!("synonym"@ =~= "related"@));
    assert(!("synonym"@ =~= "derivative"@));
    assert("antonym"@[0] != "similar"@[0]);
    assert(!("antonym"@ =~= "similar"@));
    assert("antonym"@[0] != "related"@[0]);
    assert(!("antonym"@ =~= "related"@));
    assert(!("antonym"@ =~= "derivative"@));
    assert("similar"@[0] != "related"@[0]);
    assert(!("similar"@ =~= "related"@));
    assert(!("similar"@ =~= "derivative"@));
    assert(!("related"@ =~= "derivative"@));
}

/// Level ladder offered for a language: CEFR levels for languages graded
/// that way, a three-step ladder otherwise.
pub open spec fn spec_level_config(language: Seq<char>) -> Seq<Seq<char>> {
    if language == "en"@ || language == "vi"@ || language == "es"@ || language == "fr"@
        || language == "de"@ {
        seq!["A1"@, "A2"@, "B1"@, "B2"@, "C1"@, "C2"@]
    } else if language == "ko"@ || language == "ja"@ || language == "zh"@ {
        seq!["Basic"@, "Intermediate"@, "Advanced"@]
    } else {
        seq!["Beginner"@, "Intermediate"@, "Advanced"@]
    }
}

/// The level names a language grades its vocabulary by.
pub fn get_level_config(language: &str) -> (r: Vec<String>)
    ensures
        r.deep_view() == spec_level_config(language@),
{
    let mut out: Vec<String> = Vec::new();
    if str_eq(language, "en") || str_eq(language, "vi") || str_eq(language, "es")
        || str_eq(language, "fr") || str_eq(language, "de") {
        out.push("A1".to_owned());
        out.push("A2".to_owned());
        out.push("B1".to_owned());
        out.push("B2".to_owned());
        out.push("C1".to_owned());
        out.push("C2".to_owned());
        proof {
            assert(out.deep_view() =~= seq!["A1"@, "A2"@, "B1"@, "B2"@, "C1"@, "C2"@]);
        }
    } else if str_eq(language, "ko") || str_eq(language, "ja") || str_eq(language, "zh") {
        out.push("Basic".to_owned());
        out.push("Intermediate".to_owned());
        out.push("Advanced".to_owned());
        proof {
            assert(out.deep_view() =~= seq!["Basic"@, "Intermediate"@, "Advanced"@]);
        }
    } else {
        out.push("Beginner".to_owned());
        out.push("Intermediate".to_owned());
        out.push("Advanced".to_owned());
        proof {
            assert(out.deep_view() =~= seq!["Beginner"@, "Intermediate"@, "Advanced"@]);
        }
    }
    out
}

/// One sense of a vocabulary entry.
#[derive(Debug, Clone)]
pub struct Definition {
    pub meaning: String,
    pub translation: Option<String>,
    pub example: Option<String>,
}

/// Mathematical shape of a definition.
#[verifier::ext_equal]
pub struct DefinitionV {
    pub meaning: Seq<char>,
    pub translation: Option<Seq<char>>,
    pub example: Option<Seq<char>>,
}

impl DeepView for Definition {
    type V = DefinitionV;

    open spec fn deep_view(&self) -> DefinitionV {
        DefinitionV {
            meaning: self.meaning@,
            translation: self.translation.deep_view(),
            example: self.example.deep_view(),
        }
    }
}

/// A cross-reference from one vocabulary entry to another.
#[derive(Debug, Clone)]
pub struct RelatedWord {
    pub word_id: String,
    pub word: String,
    pub relationship: WordRelationship,
}

/// Mathematical shape of a related-word reference.
#[verifier::ext_equal]
pub struct RelatedWordV {
    pub word_id: Seq<char>,
    pub word: Seq<char>,
    pub relationship: WordRelationship,
}

impl DeepView for RelatedWord {
    type V = RelatedWordV;

    open spec fn deep_view(&self) -> RelatedWordV {
        RelatedWordV {
            word_id: self.word_id@,
            word: self.word@,
            relationship: self.relationship,
        }
    }
}

/// Result of one practice question.
#[derive(Debug, Clone)]
pub struct PracticeResult {
    pub vocabulary_id: String,
    pub word: String,
    pub correct: bool,
    pub mode: PracticeMode,
    pub time_spent_seconds: i32,
}

/// Request to create a collection.
#[derive(Debug)]
pub struct CreateCollectionRequest {
    pub name: String,
    pub description: String,
    pub language: String,
    pub is_public: bool,
}

/// Request to change a collection's metadata.
#[derive(Debug)]
pub struct UpdateCollectionRequest {
    pub id: String,
    pub name: Option<String>,
    pub description: Option<String>,
    pub is_public: Option<bool>,
    pub shared_with: Option<Vec<String>>,
}

/// Request to create a vocabulary entry.
#[derive(Debug)]
pub struct CreateVocabularyRequest {
    pub word: String,
    pub word_type: WordType,
    pub level: String,
    pub ipa: String,
    pub concept: Option<String>,
    pub definitions: Vec<Definition>,
    pub example_sentences: Vec<String>,
    pub topics: Vec<String>,
    pub tags: Vec<String>,
    pub related_words: Vec<RelatedWord>,
    pub language: String,
    pub collection_id: String,
}

/// Request to change a vocabulary entry; absent fields are left untouched.
#[derive(Debug)]
pub struct UpdateVocabularyRequest {
    pub id: String,
    pub word: Option<String>,
    pub word_type: Option<WordType>,
    pub level: Option<String>,
    pub ipa: Option<String>,
    pub audio_url: Option<String>,
    pub concept: Option<String>,
    pub definitions: Option<Vec<Definition>>,
    pub example_sentences: Option<Vec<String>>,
    pub topics: Option<Vec<String>>,
    pub tags: Option<Vec<String>>,
    pub related_words: Option<Vec<RelatedWord>>,
    pub collection_id: Option<String>,
}

/// Mathematical shape of a create-vocabulary request.
#[verifier::ext_equal]
pub struct CreateVocabularyRequestV {
    pub word: Seq<char>,
    pub word_type: WordType,
    pub level: Seq<char>,
    pub ipa: Seq<char>,
    pub concept: Option<Seq<char>>,
    pub definitions: Seq<DefinitionV>,
    pub example_sentences: Seq<Seq<char>>,
    pub topics: Seq<Seq<char>>,
    pub tags: Seq<Seq<char>>,
    pub related_words: Seq<RelatedWordV>,
    pub language: Seq<char>,
    pub collection_id: Seq<char>,
}

impl DeepView for CreateVocabularyRequest {
    type V = CreateVocabularyRequestV;

    open spec fn deep_view(&self) -> CreateVocabularyRequestV {
        CreateVocabularyRequestV {
            word: self.word@,
            word_type: self.word_type,
            level: self.level@,
            ipa: self.ipa@,
            concept: self.concept.deep_view(),
            definitions: self.definitions.deep_view(),
            example_sentences: self.example_sentences.deep_view(),
            topics: self.topics.deep_view(),
            tags: self.tags.deep_view(),
            related_words: self.related_words.deep_view(),
            language: self.language@,
            collection_id: self.collection_id@,
        }
    }
}

/// Mathematical shape of an update-vocabulary request.
#[verifier::ext_equal]
pub struct UpdateVocabularyRequestV {
    pub id: Seq<char>,
    pub word: Option<Seq<char>>,
    pub word_type: Option<WordType>,
    pub level: Option<Seq<char>>,
    pub ipa: Option<Seq<char>>,
    pub audio_url: Option<Seq<char>>,
    pub concept: Option<Seq<char>>,
    pub definitions: Option<Seq<DefinitionV>>,
    pub example_sentences: Option<Seq<Seq<char>>>,
    pub topics: Option<Seq<Seq<char>>>,
    pub tags: Option<Seq<Seq<char>>>,
    pub related_words: Option<Seq<RelatedWordV>>,
    pub collection_id: Option<Seq<char>>,
}

impl DeepView for UpdateVocabularyRequest {
    type V = UpdateVocabularyRequestV;

    open spec fn deep_view(&self) -> UpdateVocabularyRequestV {
        UpdateVocabularyRequestV {
            id: self.id@,
            word: self.word.deep_view(),
            word_type: self.word_type.deep_view(),
            level: self.level.deep_view(),
            ipa: self.ipa.deep_view(),
            audio_url: self.audio_url.deep_view(),
            concept: self.concept.deep_view(),
            definitions: self.definitions.deep_view(),
            example_sentences: self.example_sentences.deep_view(),
            topics: self.topics.deep_view(),
            tags: self.tags.deep_view(),
            related_words: self.related_words.deep_view(),
            collection_id: self.collection_id.deep_view(),
        }
    }
}

/// Request to record one practice session.
#[derive(Debug)]
pub struct CreatePracticeSessionRequest {
    pub collection_id: String,
    pub mode: PracticeMode,
    pub language: String,
    pub topic: Option<String>,
    pub level: Option<String>,
    pub results: Vec<PracticeResult>,
    pub duration_seconds: i32,
}

/// Request to record the outcome of practicing one word.
#[derive(Debug)]
pub struct UpdateProgressRequest {
    pub language: String,
    pub vocabulary_id: String,
    pub word: String,
    pub correct: bool,
}

/// Request to change the learning settings; absent fields are left
/// untouched.
#[derive(Debug)]
pub struct UpdateLearningSettingsRequest {
    pub sr_algorithm: Option<SpacedRepetitionAlgorithm>,
    pub leitner_box_count: Option<i32>,
    pub consecutive_correct_required: Option<i32>,
    pub show_failed_words_in_session: Option<bool>,
    pub new_words_per_day: Option<i32>,
    pub daily_review_limit: Option<i32>,
}

} // verus!
