//! The local relational store, modelled in memory: one typed table for
//! collections, one for vocabularies, a generic table of payload rows for
//! the remaining synced tables, and the persisted sync checkpoint.
//!
//! Every row carries sync metadata. A row whose `synced_at` is `None` is
//! dirty: it has local changes the authority has not acknowledged. A row
//! with `deleted` set and `synced_at` `None` is a pending tombstone; it is
//! physically removed once the authority confirms the delete.

use vstd::prelude::*;

use crate::model::{Definition, DefinitionV, RelatedWord, RelatedWordV, WordType};
use crate::json::{JsonV, JsonValue};
use crate::tables::TableKind;

verus! {

broadcast use vstd::std_specs::vec::group_vec_axioms;

/// Sync metadata attached to every row of every synced table.
#[derive(Debug, Clone, Copy)]
pub struct SyncMeta {
    /// The authority's revision of this row, mirrored locally.
    pub sync_version: i64,
    /// When the authority last acknowledged this row; `None` means dirty.
    pub synced_at: Option<i64>,
    /// Soft-delete flag; a deleted row awaits acknowledgement of the delete.
    pub deleted: bool,
    /// When the row was soft-deleted, if it was.
    pub deleted_at: Option<i64>,
}

impl DeepView for SyncMeta {
    type V = SyncMeta;

    open spec fn deep_view(&self) -> SyncMeta {
        *self
    }
}

impl SyncMeta {
    /// Metadata of a freshly created, not yet acknowledged row.
    pub fn fresh() -> (r: SyncMeta)
        ensures
            r == (SyncMeta { sync_version: 1, synced_at: None, deleted: false, deleted_at: None }),
    {
        SyncMeta { sync_version: 1, synced_at: None, deleted: false, deleted_at: None }
    }
}

/// One row of the collections table.
#[derive(Debug)]
pub struct CollectionRow {
    pub id: String,
    pub name: String,
    pub description: String,
    pub language: String,
    /// Owner of the collection when it was shared to this device by
    /// somebody else; `None` for the user's own collections.
    pub shared_by: Option<String>,
    pub is_public: bool,
    /// Denormalized count of live vocabularies referencing this collection.
    pub word_count: i64,
    pub created_at: i64,
    pub updated_at: i64,
    pub meta: SyncMeta,
}

/// Mathematical shape of a collection row.
#[verifier::ext_equal]
pub struct CollectionRowV {
    pub id: Seq<char>,
    pub name: Seq<char>,
    pub description: Seq<char>,
    pub language: Seq<char>,
    pub shared_by: Option<Seq<char>>,
    pub is_public: bool,
    pub word_count: i64,
    pub created_at: i64,
    pub updated_at: i64,
    pub meta: SyncMeta,
}

impl DeepView for CollectionRow {
    type V = CollectionRowV;

    open spec fn deep_view(&self) -> CollectionRowV {
        CollectionRowV {
            id: self.id@,
            name: self.name@,
            description: self.description@,
            language: self.language@,
            shared_by: self.shared_by.deep_view(),
            is_public: self.is_public,
            word_count: self.word_count,
            created_at: self.created_at,
            updated_at: self.updated_at,
            meta: self.meta,
        }
    }
}

/// One row of the vocabularies table, with its nested child entities.
#[derive(Debug)]
pub struct VocabularyRow {
    pub id: String,
    pub word: String,
    pub word_type: WordType,
    pub level: String,
    pub ipa: String,
    pub audio_url: Option<String>,
    pub concept: Option<String>,
    pub language: String,
    /// The collection this vocabulary belongs to.
    pub collection_id: String,
    pub definitions: Vec<Definition>,
    pub example_sentences: Vec<String>,
    pub topics: Vec<String>,
    pub tags: Vec<String>,
    pub related_words: Vec<RelatedWord>,
    pub created_at: i64,
    pub updated_at: i64,
    pub meta: SyncMeta,
}

/// Mathematical shape of a vocabulary row.
#[verifier::ext_equal]
pub struct VocabularyRowV {
    pub id: Seq<char>,
    pub word: Seq<char>,
    pub word_type: WordType,
    pub level: Seq<char>,
    pub ipa: Seq<char>,
    pub audio_url: Option<Seq<char>>,
    pub concept: Option<Seq<char>>,
    pub language: Seq<char>,
    pub collection_id: Seq<char>,
    pub definitions: Seq<DefinitionV>,
    pub example_sentences: Seq<Seq<char>>,
    pub topics: Seq<Seq<char>>,
    pub tags: Seq<Seq<char>>,
    pub related_words: Seq<RelatedWordV>,
    pub created_at: i64,
    pub updated_at: i64,
    pub meta: SyncMeta,
}

impl DeepView for VocabularyRow {
    type V = VocabularyRowV;

    open spec fn deep_view(&self) -> VocabularyRowV {
        VocabularyRowV {
            id: self.id@,
            word: self.word@,
            word_type: self.word_type,
            level: self.level@,
            ipa: self.ipa@,
            audio_url: self.audio_url.deep_view(),
            concept: self.concept.deep_view(),
            language: self.language@,
            collection_id: self.collection_id@,
            definitions: self.definitions.deep_view(),
            example_sentences: self.example_sentences.deep_view(),
            topics: self.topics.deep_view(),
            tags: self.tags.deep_view(),
            related_words: self.related_words.deep_view(),
            created_at: self.created_at,
            updated_at: self.updated_at,
            meta: self.meta,
        }
    }
}

/// One row of any synced table other than collections and vocabularies,
/// held as its normalized payload.
#[derive(Debug)]
pub struct GenericRow {
    pub table: TableKind,
    pub id: String,
    pub data: JsonValue,
    pub meta: SyncMeta,
}

/// Mathematical shape of a generic row.
#[verifier::ext_equal]
pub struct GenericRowV {
    pub table: TableKind,
    pub id: Seq<char>,
    pub data: JsonV,
    pub meta: SyncMeta,
}

impl DeepView for GenericRow {
    type V = GenericRowV;

    open spec fn deep_view(&self) -> GenericRowV {
        GenericRowV {
            table: self.table,
            id: self.id@,
            data: self.data.deep_view(),
            meta: self.meta,
        }
    }
}

/// The whole local store.
#[derive(Debug)]
pub struct LocalStore {
    pub collections: Vec<CollectionRow>,
    pub vocabularies: Vec<VocabularyRow>,
    pub rows: Vec<GenericRow>,
    /// The `updated_at` entry of the persisted checkpoint, if written.
    pub checkpoint_updated_at: Option<String>,
    /// The `id` entry of the persisted checkpoint, if written.
    pub checkpoint_id: Option<String>,
}

/// Mathematical shape of the local store.
#[verifier::ext_equal]
pub struct StoreV {
    pub collections: Seq<CollectionRowV>,
    pub vocabularies: Seq<VocabularyRowV>,
    pub rows: Seq<GenericRowV>,
    pub checkpoint_updated_at: Option<Seq<char>>,
    pub checkpoint_id: Option<Seq<char>>,
}

impl View for LocalStore {
    type V = StoreV;

    open spec fn view(&self) -> StoreV {
        StoreV {
            collections: self.collections.deep_view(),
            vocabularies: self.vocabularies.deep_view(),
            rows: self.rows.deep_view(),
            checkpoint_updated_at: self.checkpoint_updated_at.deep_view(),
            checkpoint_id: self.checkpoint_id.deep_view(),
        }
    }
}

/// Some collection row carries this id.
pub open spec fn col_has(s: Seq<CollectionRowV>, id: Seq<char>) -> bool {
    exists|i: int| 0 <= i < s.len() && #[trigger] s[i].id == id
}

/// Some vocabulary row carries this id.
pub open spec fn vocab_has(s: Seq<VocabularyRowV>, id: Seq<char>) -> bool {
    exists|i: int| 0 <= i < s.len() && #[trigger] s[i].id == id
}

/// Some generic row of table `t` carries this id.
pub open spec fn row_has(s: Seq<GenericRowV>, t: TableKind, id: Seq<char>) -> bool {
    exists|i: int| 0 <= i < s.len() && #[trigger] s[i].table == t && s[i].id == id
}

/// Upper bound on the rows a table can hold, so that denormalized counts
/// and length arithmetic stay within machine integers.
pub const MAX_ROWS: usize = 0x1000_0000;

/// Well-formedness of the store: row ids are unique within their table,
/// each table stays within the machine bound on its size, and the generic
/// table holds no collection or vocabulary rows.
pub open spec fn store_wf(s: StoreV) -> bool {
    &&& s.collections.len() <= MAX_ROWS
    &&& s.vocabularies.len() <= MAX_ROWS
    &&& s.rows.len() <= MAX_ROWS
    &&& forall|i: int, j: int|
        0 <= i < j < s.collections.len() ==> (#[trigger] s.collections[i].id) != (
        #[trigger] s.collections[j].id)
    &&& forall|i: int, j: int|
        0 <= i < j < s.vocabularies.len() ==> (#[trigger] s.vocabularies[i].id) != (
        #[trigger] s.vocabularies[j].id)
    &&& forall|i: int, j: int|
        0 <= i < j < s.rows.len() ==> !((#[trigger] s.rows[i].table) == (
        #[trigger] s.rows[j].table) && s.rows[i].id == s.rows[j].id)
    &&& forall|i: int|
        0 <= i < s.rows.len() ==> (#[trigger] s.rows[i].table) != TableKind::Collections
            && s.rows[i].table != TableKind::Vocabularies
}

/// Count of live (not soft-deleted) vocabularies that reference the
/// collection `cid`.
pub open spec fn spec_live_vocab_count(vocabs: Seq<VocabularyRowV>, cid: Seq<char>) -> int {
    vocabs.filter(|v: VocabularyRowV| !v.meta.deleted && v.collection_id == cid).len() as int
}

impl LocalStore {
    /// A fresh, empty store with no checkpoint.
    pub fn new() -> (r: LocalStore)
        ensures
            r@ == (StoreV {
                collections: Seq::empty(),
                vocabularies: Seq::empty(),
                rows: Seq::empty(),
                checkpoint_updated_at: None,
                checkpoint_id: None,
            }),
            store_wf(r@),
    {
        let r = LocalStore {
            collections: Vec::new(),
            vocabularies: Vec::new(),
            rows: Vec::new(),
            checkpoint_updated_at: None,
            checkpoint_id: None,
        };
        proof {
            assert(r@.collections =~= Seq::<CollectionRowV>::empty());
            assert(r@.vocabularies =~= Seq::<VocabularyRowV>::empty());
            assert(r@.rows =~= Seq::<GenericRowV>::empty());
        }
        r
    }

    /// Index of the collection row with this id, if present.
    pub fn find_collection(&self, id: &str) -> (r: Option<usize>)
        ensures
            match r {
                Some(i) => i < self@.collections.len() && self@.collections[i as int].id == id@,
                None => !col_has(self@.collections, id@),
            },
    {
        let mut i: usize = 0;
        while i < self.collections.len()
            invariant
                i <= self.collections.len(),
                self@.collections.len() == self.collections@.len(),
                forall|j: int| 0 <= j < i ==> (#[trigger] self@.collections[j].id) != id@,
            decreases self.collections.len() - i,
        {
            if crate::util::str_eq(self.collections[i].id.as_str(), id) {
                return Some(i);
            }
            i += 1;
        }
        None
    }

    /// Index of the vocabulary row with this id, if present.
    pub fn find_vocabulary(&self, id: &str) -> (r: Option<usize>)
        ensures
            match r {
                Some(i) => i < self@.vocabularies.len() && self@.vocabularies[i as int].id == id@,
                None => !vocab_has(self@.vocabularies, id@),
            },
    {
        let mut i: usize = 0;
        while i < self.vocabularies.len()
            invariant
                i <= self.vocabularies.len(),
                self@.vocabularies.len() == self.vocabularies@.len(),
                forall|j: int| 0 <= j < i ==> (#[trigger] self@.vocabularies[j].id) != id@,
            decreases self.vocabularies.len() - i,
        {
            if crate::util::str_eq(self.vocabularies[i].id.as_str(), id) {
                return Some(i);
            }
            i += 1;
        }
        None
    }

    /// Index of the generic row of table `t` with this id, if present.
    pub fn find_row(&self, t: TableKind, id: &str) -> (r: Option<usize>)
        ensures
            match r {
                Some(i) => i < self@.rows.len() && self@.rows[i as int].table == t
                    && self@.rows[i as int].id == id@,
                None => !row_has(self@.rows, t, id@),
            },
    {
        let mut i: usize = 0;
        while i < self.rows.len()
            invariant
                i <= self.rows.len(),
                self@.rows.len() == self.rows@.len(),
                forall|j: int| 0 <= j < i ==> !((#[trigger] self@.rows[j].table) == t
                    && self@.rows[j].id == id@),
            decreases self.rows.len() - i,
        {
            if self.rows[i].table == t && crate::util::str_eq(self.rows[i].id.as_str(), id) {
                return Some(i);
            }
            i += 1;
        }
        None
    }

    /// The persisted checkpoint: both entries must be present for the
    /// checkpoint to be valid; a partially written checkpoint counts as
    /// none at all.
    pub fn get_checkpoint(&self) -> (r: Option<(String, String)>)
        ensures
            r.deep_view() == (match (self@.checkpoint_updated_at, self@.checkpoint_id) {
                (Some(u), Some(i)) => Some((u, i)),
                _ => None::<(Seq<char>, Seq<char>)>,
            }),
    {
        match (&self.checkpoint_updated_at, &self.checkpoint_id) {
            (Some(u), Some(i)) => Some((u.clone(), i.clone())),
            _ => None,
        }
    }

    /// Persist both checkpoint entries.
    pub fn save_checkpoint(&mut self, updated_at: &str, id: &str)
        ensures
            final(self)@ == (StoreV {
                checkpoint_updated_at: Some(updated_at@),
                checkpoint_id: Some(id@),
                ..old(self)@
            }),
    {
        self.checkpoint_updated_at = Some(updated_at.to_owned());
        self.checkpoint_id = Some(id.to_owned());
    }
}

/// Count the live vocabularies that reference the collection `cid`.
pub(crate) fn count_live_vocabs(vocabs: &Vec<VocabularyRow>, cid: &str) -> (r: usize)
    ensures
        r == spec_live_vocab_count(vocabs.deep_view(), cid@),
{
    broadcast use vstd::seq_lib::group_filter_ensures;

    let ghost gv = vocabs.deep_view();
    let ghost pred = |v: VocabularyRowV| !v.meta.deleted && v.collection_id == cid@;
    let mut count: usize = 0;
    let mut i: usize = 0;
    while i < vocabs.len()
        invariant
            i <= vocabs@.len(),
            gv == vocabs.deep_view(),
            gv.len() == vocabs@.len(),
            count == gv.take(i as int).filter(
                |v: VocabularyRowV| !v.meta.deleted && v.collection_id == cid@,
            ).len(),
            count <= i,
        decreases vocabs@.len() - i,
    {
        proof {
            assert(gv.take(i + 1) =~= gv.take(i as int).push(gv[i as int]));
            crate::util::lemma_filter_push(
                gv.take(i as int),
                |v: VocabularyRowV| !v.meta.deleted && v.collection_id == cid@,
                gv[i as int],
            );
        }
        if !vocabs[i].meta.deleted && crate::util::str_eq(vocabs[i].collection_id.as_str(), cid) {
            count += 1;
        }
        i += 1;
    }
    proof {
        assert(gv.take(gv.len() as int) =~= gv);
    }
    count
}

/// A collection row after a local metadata edit: the row is dirty again.
pub open spec fn spec_collection_edited(
    c: CollectionRowV,
    name: Seq<char>,
    description: Seq<char>,
    is_public: bool,
    now: i64,
) -> CollectionRowV {
    CollectionRowV {
        name: name,
        description: description,
        is_public: is_public,
        updated_at: now,
        meta: SyncMeta { synced_at: None, ..c.meta },
        ..c
    }
}

/// A row's metadata after its soft delete: flagged, stamped, and dirty.
pub open spec fn spec_meta_tombstoned(m: SyncMeta, now: i64) -> SyncMeta {
    SyncMeta { synced_at: None, deleted: true, deleted_at: Some(now), ..m }
}

impl LocalStore {
    /// Replace the metadata of the vocabulary row at `i`.
    pub(crate) fn set_vocab_meta(&mut self, i: usize, meta: SyncMeta)
        requires
            i < old(self)@.vocabularies.len(),
        ensures
            final(self)@ == (StoreV {
                vocabularies: old(self)@.vocabularies.update(
                    i as int,
                    VocabularyRowV { meta: meta, ..old(self)@.vocabularies[i as int] },
                ),
                ..old(self)@
            }),
    {
        let ghost s0 = self@;
        let mut row = self.vocabularies.remove(i);
        row.meta = meta;
        self.vocabularies.insert(i, row);
        proof {
            s0.vocabularies.remove_ensures(i as int);
            assert(self@.vocabularies =~= s0.vocabularies.update(
                i as int,
                VocabularyRowV { meta: meta, ..s0.vocabularies[i as int] },
            ));
            assert(self@ =~= (StoreV {
                vocabularies: s0.vocabularies.update(
                    i as int,
                    VocabularyRowV { meta: meta, ..s0.vocabularies[i as int] },
                ),
                ..s0
            }));
        }
    }

    /// Replace the metadata of the collection row at `i`.
    pub(crate) fn set_collection_meta(&mut self, i: usize, meta: SyncMeta)
        requires
            i < old(self)@.collections.len(),
        ensures
            final(self)@ == (StoreV {
                collections: old(self)@.collections.update(
                    i as int,
                    CollectionRowV { meta: meta, ..old(self)@.collections[i as int] },
                ),
                ..old(self)@
            }),
    {
        let ghost s0 = self@;
        let mut row = self.collections.remove(i);
        row.meta = meta;
        self.collections.insert(i, row);
        proof {
            s0.collections.remove_ensures(i as int);
            assert(self@.collections =~= s0.collections.update(
                i as int,
                CollectionRowV { meta: meta, ..s0.collections[i as int] },
            ));
            assert(self@ =~= (StoreV {
                collections: s0.collections.update(
                    i as int,
                    CollectionRowV { meta: meta, ..s0.collections[i as int] },
                ),
                ..s0
            }));
        }
    }

    /// Replace the metadata of the generic row at `i`.
    pub(crate) fn set_row_meta(&mut self, i: usize, meta: SyncMeta)
        requires
            i < old(self)@.rows.len(),
        ensures
            final(self)@ == (StoreV {
                rows: old(self)@.rows.update(
                    i as int,
                    GenericRowV { meta: meta, ..old(self)@.rows[i as int] },
                ),
                ..old(self)@
            }),
    {
        let ghost s0 = self@;
        let mut row = self.rows.remove(i);
        row.meta = meta;
        self.rows.insert(i, row);
        proof {
            s0.rows.remove_ensures(i as int);
            assert(self@.rows =~= s0.rows.update(
                i as int,
                GenericRowV { meta: meta, ..s0.rows[i as int] },
            ));
            assert(self@ =~= (StoreV {
                rows: s0.rows.update(i as int, GenericRowV { meta: meta, ..s0.rows[i as int] }),
                ..s0
            }));
        }
    }

    /// Insert a collection under a caller-supplied id, as a fresh dirty
    /// row; refused when the id is already taken.
    pub fn import_collection_with_id(
        &mut self,
        collection_id: &str,
        name: &str,
        description: &str,
        language: &str,
        shared_by: Option<&str>,
        is_public: bool,
        now: i64,
    ) -> (r: bool)
        requires
            store_wf(old(self)@),
            old(self)@.collections.len() < MAX_ROWS,
        ensures
            r == !col_has(old(self)@.collections, collection_id@),
            r ==> final(self)@ == (StoreV {
                collections: old(self)@.collections.push(
                    CollectionRowV {
                        id: collection_id@,
                        name: name@,
                        description: description@,
                        language: language@,
                        shared_by: shared_by.deep_view(),
                        is_public: is_public,
                        word_count: 0,
                        created_at: now,
                        updated_at: now,
                        meta: SyncMeta {
                            sync_version: 1,
                            synced_at: None,
                            deleted: false,
                            deleted_at: None,
                        },
                    },
                ),
                ..old(self)@
            }),
            !r ==> final(self)@ == old(self)@,
            store_wf(final(self)@),
    {
        let ghost s0 = self@;
        match self.find_collection(collection_id) {
            Some(_) => false,
            None => {
                let row = CollectionRow {
                    id: collection_id.to_owned(),
                    name: name.to_owned(),
                    description: description.to_owned(),
                    language: language.to_owned(),
                    shared_by: (match shared_by {
                        Some(sb) => Some(sb.to_owned()),
                        None => None,
                    }),
                    is_public,
                    word_count: 0,
                    created_at: now,
                    updated_at: now,
                    meta: SyncMeta::fresh(),
                };
                self.collections.push(row);
                proof {
                    assert(self@ =~= (StoreV {
                        collections: s0.collections.push(
                            CollectionRowV {
                                id: collection_id@,
                                name: name@,
                                description: description@,
                                language: language@,
                                shared_by: shared_by.deep_view(),
                                is_public: is_public,
                                word_count: 0,
                                created_at: now,
                                updated_at: now,
                                meta: SyncMeta {
                                    sync_version: 1,
                                    synced_at: None,
                                    deleted: false,
                                    deleted_at: None,
                                },
                            },
                        ),
                        ..s0
                    }));
                }
                true
            },
        }
    }

    /// Create a collection under a freshly generated row id and return the
    /// id; `None` only in the unlikely case the generated id is already
    /// taken, which cannot happen while the table is empty.
    pub fn create_collection(
        &mut self,
        name: &str,
        description: &str,
        language: &str,
        is_public: bool,
        now: i64,
    ) -> (r: Option<String>)
        requires
            store_wf(old(self)@),
            old(self)@.collections.len() < MAX_ROWS,
        ensures
            match r {
                Some(id) => !col_has(old(self)@.collections, id@) && final(self)@ == (StoreV {
                    collections: old(self)@.collections.push(
                        CollectionRowV {
                            id: id@,
                            name: name@,
                            description: description@,
                            language: language@,
                            shared_by: None,
                            is_public: is_public,
                            word_count: 0,
                            created_at: now,
                            updated_at: now,
                            meta: SyncMeta {
                                sync_version: 1,
                                synced_at: None,
                                deleted: false,
                                deleted_at: None,
                            },
                        },
                    ),
                    ..old(self)@
                }),
                None => final(self)@ == old(self)@,
            },
            r is None ==> old(self)@.collections.len() > 0,
            store_wf(final(self)@),
    {
        let id = crate::util::new_row_id();
        if self.import_collection_with_id(id.as_str(), name, description, language, None, is_public, now) {
            Some(id)
        } else {
            None
        }
    }

    /// Edit a collection's metadata; the row becomes dirty again. Returns
    /// whether a row with this id existed.
    pub fn update_collection(
        &mut self,
        collection_id: &str,
        name: &str,
        description: &str,
        is_public: bool,
        now: i64,
    ) -> (r: bool)
        requires
            store_wf(old(self)@),
        ensures
            r == col_has(old(self)@.collections, collection_id@),
            final(self)@ == (if col_has(old(self)@.collections, collection_id@) {
                StoreV {
                    collections: old(self)@.collections.map_values(
                        |c: CollectionRowV|
                            if c.id == collection_id@ {
                                spec_collection_edited(c, name@, description@, is_public, now)
                            } else {
                                c
                            },
                    ),
                    ..old(self)@
                }
            } else {
                old(self)@
            }),
            store_wf(final(self)@),
    {
        let ghost s0 = self@;
        match self.find_collection(collection_id) {
            Some(i) => {
                let c = &self.collections[i];
                let updated = CollectionRow {
                    id: c.id.clone(),
                    name: name.to_owned(),
                    description: description.to_owned(),
                    language: c.language.clone(),
                    shared_by: (match &c.shared_by {
                        Some(sb) => Some(sb.clone()),
                        None => None,
                    }),
                    is_public,
                    word_count: c.word_count,
                    created_at: c.created_at,
                    updated_at: now,
                    meta: SyncMeta { synced_at: None, ..c.meta },
                };
                self.collections[i] = updated;
                proof {
                    assert(col_has(s0.collections, collection_id@));
                    assert(self@.collections =~= s0.collections.map_values(
                        |c: CollectionRowV|
                            if c.id == collection_id@ {
                                spec_collection_edited(c, name@, description@, is_public, now)
                            } else {
                                c
                            },
                    ));
                    assert(self@ =~= (StoreV {
                        collections: s0.collections.map_values(
                            |c: CollectionRowV|
                                if c.id == collection_id@ {
                                    spec_collection_edited(c, name@, description@, is_public, now)
                                } else {
                                    c
                                },
                        ),
                        ..s0
                    }));
                }
                true
            },
            None => false,
        }
    }

    /// Soft-delete a collection and every vocabulary that references it:
    /// the rows become pending tombstones, to be purged once the authority
    /// acknowledges the delete. Returns whether the collection existed.
    pub fn delete_collection(&mut self, collection_id: &str, now: i64) -> (r: bool)
        requires
            store_wf(old(self)@),
        ensures
            r == col_has(old(self)@.collections, collection_id@),
            final(self)@ == (if col_has(old(self)@.collections, collection_id@) {
                StoreV {
                    collections: old(self)@.collections.map_values(
                        |c: CollectionRowV|
                            if c.id == collection_id@ {
                                CollectionRowV { meta: spec_meta_tombstoned(c.meta, now), ..c }
                            } else {
                                c
                            },
                    ),
                    vocabularies: old(self)@.vocabularies.map_values(
                        |v: VocabularyRowV|
                            if v.collection_id == collection_id@ && !v.meta.deleted {
                                VocabularyRowV { meta: spec_meta_tombstoned(v.meta, now), ..v }
                            } else {
                                v
                            },
                    ),
                    ..old(self)@
                }
            } else {
                old(self)@
            }),
            store_wf(final(self)@),
    {
        let ghost s0 = self@;
        match self.find_collection(collection_id) {
            None => false,
            Some(ci) => {
                // Soft-delete the member vocabularies first.
                let mut i: usize = 0;
                while i < self.vocabularies.len()
                    invariant
                        i <= self.vocabularies@.len(),
                        self@.vocabularies.len() == s0.vocabularies.len(),
                        self@.collections == s0.collections,
                        self@.rows == s0.rows,
                        self@.checkpoint_updated_at == s0.checkpoint_updated_at,
                        self@.checkpoint_id == s0.checkpoint_id,
                        forall|j: int| 0 <= j < i ==> #[trigger] self@.vocabularies[j] == (
                            if s0.vocabularies[j].collection_id == collection_id@
                                && !s0.vocabularies[j].meta.deleted {
                                VocabularyRowV {
                                    meta: spec_meta_tombstoned(s0.vocabularies[j].meta, now),
                                    ..s0.vocabularies[j]
                                }
                            } else {
                                s0.vocabularies[j]
                            }),
                        forall|j: int|
                            i <= j < s0.vocabularies.len() ==> #[trigger] self@.vocabularies[j]
                                == s0.vocabularies[j],
                    decreases s0.vocabularies.len() - i,
                {
                    proof {
                        assert(self@.vocabularies[i as int] == s0.vocabularies[i as int]);
                    }
                    let v = &self.vocabularies[i];
                    if !v.meta.deleted && crate::util::str_eq(v.collection_id.as_str(), collection_id) {
                        let meta = SyncMeta {
                            synced_at: None,
                            deleted: true,
                            deleted_at: Some(now),
                            ..v.meta
                        };
                        self.set_vocab_meta(i, meta);
                    }
                    proof {
                        assert(self.vocabularies@.len() == self@.vocabularies.len());
                    }
                    i += 1;
                }
                // Then soft-delete the collection itself.
                proof {
                    assert(self@.collections[ci as int] == s0.collections[ci as int]);
                }
                let c = &self.collections[ci];
                let meta = SyncMeta { synced_at: None, deleted: true, deleted_at: Some(now), ..c.meta };
                self.set_collection_meta(ci, meta);
                proof {
                    assert(col_has(s0.collections, collection_id@));
                    assert(self@.vocabularies =~= s0.vocabularies.map_values(
                        |v: VocabularyRowV|
                            if v.collection_id == collection_id@ && !v.meta.deleted {
                                VocabularyRowV { meta: spec_meta_tombstoned(v.meta, now), ..v }
                            } else {
                                v
                            },
                    ));
                    assert(self@.collections =~= s0.collections.map_values(
                        |c: CollectionRowV|
                            if c.id == collection_id@ {
                                CollectionRowV { meta: spec_meta_tombstoned(c.meta, now), ..c }
                            } else {
                                c
                            },
                    ));
                    assert(self@ =~= (StoreV {
                        collections: s0.collections.map_values(
                            |c: CollectionRowV|
                                if c.id == collection_id@ {
                                    CollectionRowV { meta: spec_meta_tombstoned(c.meta, now), ..c }
                                } else {
                                    c
                                },
                        ),
                        vocabularies: s0.vocabularies.map_values(
                            |v: VocabularyRowV|
                                if v.collection_id == collection_id@ && !v.meta.deleted {
                                    VocabularyRowV { meta: spec_meta_tombstoned(v.meta, now), ..v }
                                } else {
                                    v
                                },
                        ),
                        ..s0
                    }));
                }
                true
            },
        }
    }

    /// The live (not soft-deleted) collections, in storage order.
    pub fn get_user_collections(&self) -> (r: Vec<&CollectionRow>)
        ensures
            r.deep_view() == self@.collections.filter(|c: CollectionRowV| !c.meta.deleted),
    {
        let ghost s = self@;
        let mut out: Vec<&CollectionRow> = Vec::new();
        let mut i: usize = 0;
        while i < self.collections.len()
            invariant
                i <= self.collections@.len(),
                s == self@,
                s.collections.len() == self.collections@.len(),
                out.deep_view() =~= s.collections.take(i as int).filter(
                    |c: CollectionRowV| !c.meta.deleted,
                ),
            decreases self.collections@.len() - i,
        {
            proof {
                assert(s.collections.take(i + 1) =~= s.collections.take(i as int).push(
                    s.collections[i as int],
                ));
                crate::util::lemma_filter_push(
                    s.collections.take(i as int),
                    |c: CollectionRowV| !c.meta.deleted,
                    s.collections[i as int],
                );
            }
            let c = &self.collections[i];
            if !c.meta.deleted {
                let ghost prev = out.deep_view();
                out.push(c);
                proof {
                    assert(out@.len() == prev.len() + 1);
                    assert(out.deep_view()[prev.len() as int] == s.collections[i as int]);
                    assert(forall|j: int|
                        0 <= j < prev.len() ==> #[trigger] out.deep_view()[j] == prev[j]);
                }
            }
            i += 1;
        }
        proof {
            assert(s.collections.take(s.collections.len() as int) =~= s.collections);
        }
        out
    }

    /// The collection with this id, if present (deleted or not).
    pub fn get_collection(&self, collection_id: &str) -> (r: Option<&CollectionRow>)
        ensures
            match r {
                Some(c) => col_has(self@.collections, collection_id@) && (exists|i: int|
                    0 <= i < self@.collections.len() && #[trigger] self@.collections[i]
                        == c.deep_view() && c.deep_view().id == collection_id@),
                None => !col_has(self@.collections, collection_id@),
            },
    {
        match self.find_collection(collection_id) {
            Some(i) => {
                let c = &self.collections[i];
                proof {
                    assert(self@.collections[i as int] == c.deep_view());
                }
                Some(c)
            },
            None => None,
        }
    }

    /// The vocabulary with this id, if present (deleted or not).
    pub fn get_vocabulary(&self, vocabulary_id: &str) -> (r: Option<&VocabularyRow>)
        ensures
            match r {
                Some(v) => vocab_has(self@.vocabularies, vocabulary_id@) && (exists|i: int|
                    0 <= i < self@.vocabularies.len() && #[trigger] self@.vocabularies[i]
                        == v.deep_view() && v.deep_view().id == vocabulary_id@),
                None => !vocab_has(self@.vocabularies, vocabulary_id@),
            },
    {
        match self.find_vocabulary(vocabulary_id) {
            Some(i) => {
                let v = &self.vocabularies[i];
                proof {
                    assert(self@.vocabularies[i as int] == v.deep_view());
                }
                Some(v)
            },
            None => None,
        }
    }
}

/// The index of the vocabulary row with this id, when one exists.
pub open spec fn vocab_index_of(s: Seq<VocabularyRowV>, id: Seq<char>) -> int {
    choose|i: int| 0 <= i < s.len() && #[trigger] s[i].id == id
}

/// A collection after its denormalized word count is recomputed: the
/// matching row gets the live count and a fresh modification stamp.
pub open spec fn spec_update_wc(s: StoreV, cid: Seq<char>, now: i64) -> StoreV {
    StoreV {
        collections: s.collections.map_values(
            |c: CollectionRowV|
                if c.id == cid {
                    CollectionRowV {
                        word_count: spec_live_vocab_count(s.vocabularies, cid) as i64,
                        updated_at: now,
                        ..c
                    }
                } else {
                    c
                },
        ),
        ..s
    }
}

/// A vocabulary row after a local edit: present request fields overwrite
/// the row's domain fields, the optional audio and concept fields are
/// written as given, and the row is dirty again.
pub open spec fn spec_vocab_edited(
    v: VocabularyRowV,
    r: crate::model::UpdateVocabularyRequestV,
    now: i64,
) -> VocabularyRowV {
    VocabularyRowV {
        word: (match r.word {
            Some(w) => w,
            None => v.word,
        }),
        word_type: (match r.word_type {
            Some(t) => t,
            None => v.word_type,
        }),
        level: (match r.level {
            Some(l) => l,
            None => v.level,
        }),
        ipa: (match r.ipa {
            Some(p) => p,
            None => v.ipa,
        }),
        audio_url: r.audio_url,
        concept: r.concept,
        definitions: (match r.definitions {
            Some(d) => d,
            None => v.definitions,
        }),
        example_sentences: (match r.example_sentences {
            Some(e) => e,
            None => v.example_sentences,
        }),
        topics: (match r.topics {
            Some(t) => t,
            None => v.topics,
        }),
        tags: (match r.tags {
            Some(t) => t,
            None => v.tags,
        }),
        related_words: (match r.related_words {
            Some(w) => w,
            None => v.related_words,
        }),
        collection_id: (match r.collection_id {
            Some(c) => c,
            None => v.collection_id,
        }),
        updated_at: now,
        meta: SyncMeta { synced_at: None, ..v.meta },
        ..v
    }
}

impl LocalStore {
    /// Recompute the denormalized word count of one collection from the
    /// live vocabularies that reference it.
    pub fn update_collection_word_count(&mut self, collection_id: &str, now: i64)
        requires
            store_wf(old(self)@),
        ensures
            final(self)@ == spec_update_wc(old(self)@, collection_id@, now),
            store_wf(final(self)@),
    {
        let ghost s0 = self@;
        let count = count_live_vocabs(&self.vocabularies, collection_id);
        proof {
            s0.vocabularies.lemma_filter_len(
                |v: VocabularyRowV| !v.meta.deleted && v.collection_id == collection_id@,
            );
        }
        match self.find_collection(collection_id) {
            Some(i) => {
                proof {
                    assert(self@.collections[i as int] == s0.collections[i as int]);
                }
                let c = &self.collections[i];
                let updated = CollectionRow {
                    id: c.id.clone(),
                    name: c.name.clone(),
                    description: c.description.clone(),
                    language: c.language.clone(),
                    shared_by: (match &c.shared_by {
                        Some(sb) => Some(sb.clone()),
                        None => None,
                    }),
                    is_public: c.is_public,
                    word_count: count as i64,
                    created_at: c.created_at,
                    updated_at: now,
                    meta: c.meta,
                };
                self.collections[i] = updated;
                proof {
                    assert(self@.collections[i as int] == updated.deep_view());
                    assert(self@.collections =~= spec_update_wc(s0, collection_id@, now).collections);
                    assert(self@ =~= spec_update_wc(s0, collection_id@, now));
                }
            },
            None => {
                proof {
                    assert(self@.collections =~= spec_update_wc(s0, collection_id@, now).collections);
                    assert(self@ =~= spec_update_wc(s0, collection_id@, now));
                }
            },
        }
    }

    /// Insert a vocabulary row exactly as given, keeping its metadata;
    /// refused when the id is already taken. The denormalized counts are
    /// the caller's to refresh.
    pub fn import_vocabulary_with_id(&mut self, row: VocabularyRow) -> (r: bool)
        requires
            store_wf(old(self)@),
            old(self)@.vocabularies.len() < MAX_ROWS,
        ensures
            r == !vocab_has(old(self)@.vocabularies, row.id@),
            r ==> final(self)@ == (StoreV {
                vocabularies: old(self)@.vocabularies.push(row.deep_view()),
                ..old(self)@
            }),
            !r ==> final(self)@ == old(self)@,
            store_wf(final(self)@),
    {
        let ghost s0 = self@;
        match self.find_vocabulary(row.id.as_str()) {
            Some(_) => false,
            None => {
                let ghost rowv = row.deep_view();
                self.vocabularies.push(row);
                proof {
                    assert(self@ =~= (StoreV { vocabularies: s0.vocabularies.push(rowv), ..s0 }));
                }
                true
            },
        }
    }

    /// Create a vocabulary entry under a freshly generated row id, as a
    /// dirty row, and refresh its collection's word count. Returns the id;
    /// `None` only in the unlikely case the generated id is already taken,
    /// which cannot happen while the table is empty.
    pub fn create_vocabulary(
        &mut self,
        req: crate::model::CreateVocabularyRequest,
        now: i64,
    ) -> (r: Option<String>)
        requires
            store_wf(old(self)@),
            old(self)@.vocabularies.len() < MAX_ROWS,
        ensures
            match r {
                Some(id) => !vocab_has(old(self)@.vocabularies, id@) && final(self)@
                    == spec_update_wc(
                    StoreV {
                        vocabularies: old(self)@.vocabularies.push(
                            VocabularyRowV {
                                id: id@,
                                word: req.deep_view().word,
                                word_type: req.deep_view().word_type,
                                level: req.deep_view().level,
                                ipa: req.deep_view().ipa,
                                audio_url: None,
                                concept: req.deep_view().concept,
                                language: req.deep_view().language,
                                collection_id: req.deep_view().collection_id,
                                definitions: req.deep_view().definitions,
                                example_sentences: req.deep_view().example_sentences,
                                topics: req.deep_view().topics,
                                tags: req.deep_view().tags,
                                related_words: req.deep_view().related_words,
                                created_at: now,
                                updated_at: now,
                                meta: SyncMeta {
                                    sync_version: 1,
                                    synced_at: None,
                                    deleted: false,
                                    deleted_at: None,
                                },
                            },
                        ),
                        ..old(self)@
                    },
                    req.deep_view().collection_id,
                    now,
                ),
                None => final(self)@ == old(self)@,
            },
            r is None ==> old(self)@.vocabularies.len() > 0,
            store_wf(final(self)@),
    {
        let id = crate::util::new_row_id();
        match self.find_vocabulary(id.as_str()) {
            Some(_) => None,
            None => {
                let ghost s0 = self@;
                let ghost reqv = req.deep_view();
                let collection_id = req.collection_id.clone();
                let row = VocabularyRow {
                    id: id.clone(),
                    word: req.word,
                    word_type: req.word_type,
                    level: req.level,
                    ipa: req.ipa,
                    audio_url: None,
                    concept: req.concept,
                    language: req.language,
                    collection_id: req.collection_id,
                    definitions: req.definitions,
                    example_sentences: req.example_sentences,
                    topics: req.topics,
                    tags: req.tags,
                    related_words: req.related_words,
                    created_at: now,
                    updated_at: now,
                    meta: SyncMeta::fresh(),
                };
                let ghost rowv = row.deep_view();
                self.vocabularies.push(row);
                proof {
                    assert(self@ =~= (StoreV { vocabularies: s0.vocabularies.push(rowv), ..s0 }));
                }
                self.update_collection_word_count(collection_id.as_str(), now);
                Some(id)
            },
        }
    }

    /// Edit a vocabulary entry: present request fields overwrite the row,
    /// the row becomes dirty, and the word counts of both the old and the
    /// new collection are refreshed when the entry moves. Returns whether
    /// a row with this id existed.
    #[verifier::rlimit(80)]
    pub fn update_vocabulary(
        &mut self,
        vocabulary_id: &str,
        req: crate::model::UpdateVocabularyRequest,
        now: i64,
    ) -> (r: bool)
        requires
            store_wf(old(self)@),
        ensures
            r == vocab_has(old(self)@.vocabularies, vocabulary_id@),
            !r ==> final(self)@ == old(self)@,
            r ==> final(self)@ == ({
                let idx = vocab_index_of(old(self)@.vocabularies, vocabulary_id@);
                let before = old(self)@.vocabularies[idx];
                let edited = spec_vocab_edited(before, req.deep_view(), now);
                spec_update_wc(
                    spec_update_wc(
                        StoreV {
                            vocabularies: old(self)@.vocabularies.update(idx, edited),
                            ..old(self)@
                        },
                        before.collection_id,
                        now,
                    ),
                    edited.collection_id,
                    now,
                )
            }),
            store_wf(final(self)@),
    {
        let ghost s0 = self@;
        let ghost reqv = req.deep_view();
        match self.find_vocabulary(vocabulary_id) {
            None => false,
            Some(i) => {
                proof {
                    let idx = vocab_index_of(s0.vocabularies, vocabulary_id@);
                    assert(0 <= idx < s0.vocabularies.len() && s0.vocabularies[idx].id
                        == vocabulary_id@);
                    assert(idx == i as int);
                }
                let row = self.vocabularies.remove(i);
                let old_collection_id = row.collection_id.clone();
                let edited = VocabularyRow {
                    id: row.id,
                    word: (match req.word {
                        Some(w) => w,
                        None => row.word,
                    }),
                    word_type: (match req.word_type {
                        Some(t) => t,
                        None => row.word_type,
                    }),
                    level: (match req.level {
                        Some(l) => l,
                        None => row.level,
                    }),
                    ipa: (match req.ipa {
                        Some(p) => p,
                        None => row.ipa,
                    }),
                    audio_url: req.audio_url,
                    concept: req.concept,
                    language: row.language,
                    collection_id: (match req.collection_id {
                        Some(c) => c,
                        None => row.collection_id,
                    }),
                    definitions: (match req.definitions {
                        Some(d) => d,
                        None => row.definitions,
                    }),
                    example_sentences: (match req.example_sentences {
                        Some(e) => e,
                        None => row.example_sentences,
                    }),
                    topics: (match req.topics {
                        Some(t) => t,
                        None => row.topics,
                    }),
                    tags: (match req.tags {
                        Some(t) => t,
                        None => row.tags,
                    }),
                    related_words: (match req.related_words {
                        Some(w) => w,
                        None => row.related_words,
                    }),
                    created_at: row.created_at,
                    updated_at: now,
                    meta: SyncMeta { synced_at: None, ..row.meta },
                };
                let new_collection_id = edited.collection_id.clone();
                let ghost editedv = edited.deep_view();
                self.vocabularies.insert(i, edited);
                proof {
                    s0.vocabularies.remove_ensures(i as int);
                    assert(editedv =~= spec_vocab_edited(s0.vocabularies[i as int], reqv, now));
                    assert(self@.vocabularies =~= s0.vocabularies.update(i as int, editedv));
                    assert(self@ =~= (StoreV {
                        vocabularies: s0.vocabularies.update(
                            i as int,
                            spec_vocab_edited(s0.vocabularies[i as int], reqv, now),
                        ),
                        ..s0
                    }));
                }
                self.update_collection_word_count(old_collection_id.as_str(), now);
                self.update_collection_word_count(new_collection_id.as_str(), now);
                true
            },
        }
    }

    /// Soft-delete a vocabulary entry and refresh its collection's word
    /// count. Returns whether a row with this id existed.
    pub fn delete_vocabulary(&mut self, vocabulary_id: &str, now: i64) -> (r: bool)
        requires
            store_wf(old(self)@),
        ensures
            r == vocab_has(old(self)@.vocabularies, vocabulary_id@),
            !r ==> final(self)@ == old(self)@,
            r ==> final(self)@ == ({
                let idx = vocab_index_of(old(self)@.vocabularies, vocabulary_id@);
                let before = old(self)@.vocabularies[idx];
                spec_update_wc(
                    StoreV {
                        vocabularies: old(self)@.vocabularies.update(
                            idx,
                            VocabularyRowV { meta: spec_meta_tombstoned(before.meta, now), ..before },
                        ),
                        ..old(self)@
                    },
                    before.collection_id,
                    now,
                )
            }),
            store_wf(final(self)@),
    {
        let ghost s0 = self@;
        match self.find_vocabulary(vocabulary_id) {
            None => false,
            Some(i) => {
                proof {
                    let idx = vocab_index_of(s0.vocabularies, vocabulary_id@);
                    assert(0 <= idx < s0.vocabularies.len() && s0.vocabularies[idx].id
                        == vocabulary_id@);
                    assert(idx == i as int);
                    assert(self@.vocabularies[i as int] == s0.vocabularies[i as int]);
                }
                let collection_id = self.vocabularies[i].collection_id.clone();
                let meta = SyncMeta {
                    synced_at: None,
                    deleted: true,
                    deleted_at: Some(now),
                    ..self.vocabularies[i].meta
                };
                self.set_vocab_meta(i, meta);
                self.update_collection_word_count(collection_id.as_str(), now);
                true
            },
        }
    }

    /// The live vocabularies, optionally narrowed to one language and one
    /// collection, in storage order.
    pub fn get_all_vocabularies(
        &self,
        language: Option<&str>,
        collection_id: Option<&str>,
    ) -> (r: Vec<&VocabularyRow>)
        ensures
            r.deep_view() == self@.vocabularies.filter(
                |v: VocabularyRowV| !v.meta.deleted && (match language.deep_view() {
                    Some(l) => v.language == l,
                    None => true,
                }) && (match collection_id.deep_view() {
                    Some(c) => v.collection_id == c,
                    None => true,
                }),
            ),
    {
        let ghost s = self@;
        let ghost lang = language.deep_view();
        let ghost cid = collection_id.deep_view();
        let ghost pred = |v: VocabularyRowV| !v.meta.deleted && (match lang {
            Some(l) => v.language == l,
            None => true,
        }) && (match cid {
            Some(c) => v.collection_id == c,
            None => true,
        });
        let mut out: Vec<&VocabularyRow> = Vec::new();
        let mut i: usize = 0;
        while i < self.vocabularies.len()
            invariant
                i <= self.vocabularies@.len(),
                s == self@,
                lang == language.deep_view(),
                cid == collection_id.deep_view(),
                s.vocabularies.len() == self.vocabularies@.len(),
                out.deep_view() =~= s.vocabularies.take(i as int).filter(
                    |v: VocabularyRowV| !v.meta.deleted && (match lang {
                        Some(l) => v.language == l,
                        None => true,
                    }) && (match cid {
                        Some(c) => v.collection_id == c,
                        None => true,
                    }),
                ),
            decreases self.vocabularies@.len() - i,
        {
            proof {
                assert(s.vocabularies.take(i + 1) =~= s.vocabularies.take(i as int).push(
                    s.vocabularies[i as int],
                ));
                crate::util::lemma_filter_push(
                    s.vocabularies.take(i as int),
                    |v: VocabularyRowV| !v.meta.deleted && (match lang {
                        Some(l) => v.language == l,
                        None => true,
                    }) && (match cid {
                        Some(c) => v.collection_id == c,
                        None => true,
                    }),
                    s.vocabularies[i as int],
                );
            }
            let v = &self.vocabularies[i];
            let lang_ok = match language {
                Some(l) => crate::util::str_eq(v.language.as_str(), l),
                None => true,
            };
            let cid_ok = match collection_id {
                Some(c) => crate::util::str_eq(v.collection_id.as_str(), c),
                None => true,
            };
            if !v.meta.deleted && lang_ok && cid_ok {
                let ghost prev = out.deep_view();
                out.push(v);
                proof {
                    assert(out@.len() == prev.len() + 1);
                    assert(out.deep_view()[prev.len() as int] == s.vocabularies[i as int]);
                    assert(forall|j: int|
                        0 <= j < prev.len() ==> #[trigger] out.deep_view()[j] == prev[j]);
                }
            }
            i += 1;
        }
        proof {
            assert(s.vocabularies.take(s.vocabularies.len() as int) =~= s.vocabularies);
            crate::util::lemma_filter_congruent(
                s.vocabularies,
                |v: VocabularyRowV| !v.meta.deleted && (match lang {
                    Some(l) => v.language == l,
                    None => true,
                }) && (match cid {
                    Some(c) => v.collection_id == c,
                    None => true,
                }),
                |v: VocabularyRowV| !v.meta.deleted && (match language.deep_view() {
                    Some(l) => v.language == l,
                    None => true,
                }) && (match collection_id.deep_view() {
                    Some(c) => v.collection_id == c,
                    None => true,
                }),
            );
        }
        out
    }
}

} // verus!
