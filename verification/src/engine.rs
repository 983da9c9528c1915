//! Orchestration of one sync pass. The two network round trips are the
//! caller's: it pushes the collected batch with the saved checkpoint,
//! pulls the remote changes, and hands both responses back to the
//! functions here. Nothing is marked synced or checkpointed unless the
//! corresponding round trip succeeded.

use vstd::prelude::*;

use crate::apply::{apply_remote_changes, spec_apply_records};
use crate::record::{PullResponse, SyncResult, SyncStatus};
use crate::store::{store_wf, CollectionRowV, GenericRowV, LocalStore, StoreV, VocabularyRowV, MAX_ROWS};

verus! {

/// The epoch seconds a checkpoint timestamp denotes, if it parses as
/// RFC3339; the result depends on the text alone.
pub uninterp spec fn rfc3339_secs(s: Seq<char>) -> Option<i64>;

/// Relies on `chrono::DateTime::parse_from_rfc3339` and
/// `chrono::DateTime::timestamp`: parsing is a pure function of the text,
/// and a parsed instant has a well-defined epoch second.
#[verifier::external_body]
fn parse_rfc3339_secs(s: &str) -> (r: Option<i64>)
    ensures
        r == rfc3339_secs(s@),
{
    chrono::DateTime::parse_from_rfc3339(s).ok().map(|dt| dt.timestamp())
}

/// When the last pull was consumed, in epoch seconds: the saved
/// checkpoint's timestamp, when a valid checkpoint exists and parses.
pub open spec fn spec_last_sync_at(s: StoreV) -> Option<i64> {
    match (s.checkpoint_updated_at, s.checkpoint_id) {
        (Some(u), Some(_)) => rfc3339_secs(u),
        _ => None,
    }
}

/// The epoch seconds of the last consumed pull, if any.
pub fn last_sync_timestamp(store: &LocalStore) -> (r: Option<i64>)
    ensures
        r == spec_last_sync_at(store@),
{
    match store.get_checkpoint() {
        Some((updated_at, _)) => parse_rfc3339_secs(updated_at.as_str()),
        None => None,
    }
}

/// How many rows await acknowledgement: every row of every synced table
/// whose `synced_at` is unset, tombstones included.
pub open spec fn spec_pending_count(s: StoreV) -> int {
    s.collections.filter(|c: CollectionRowV| c.meta.synced_at is None).len()
        + s.vocabularies.filter(|v: VocabularyRowV| v.meta.synced_at is None).len()
        + s.rows.filter(|g: GenericRowV| g.meta.synced_at is None).len() as int
}

/// Count the rows awaiting acknowledgement.
pub fn count_pending_changes(store: &LocalStore) -> (r: usize)
    requires
        store_wf(store@),
    ensures
        r == spec_pending_count(store@),
{
    broadcast use vstd::seq_lib::group_filter_ensures;

    let a = count_pending_collections(&store.collections);
    let b = count_pending_vocabs(&store.vocabularies);
    let c = count_pending_rows(&store.rows);
    proof {
        store@.collections.lemma_filter_len(|c: CollectionRowV| c.meta.synced_at is None);
        store@.vocabularies.lemma_filter_len(|v: VocabularyRowV| v.meta.synced_at is None);
        store@.rows.lemma_filter_len(|g: GenericRowV| g.meta.synced_at is None);
    }
    a + b + c
}

fn count_pending_collections(rows: &Vec<crate::store::CollectionRow>) -> (r: usize)
    ensures
        r == rows.deep_view().filter(|c: CollectionRowV| c.meta.synced_at is None).len(),
        r <= rows.deep_view().len(),
{
    let ghost g = rows.deep_view();
    let mut count: usize = 0;
    let mut i: usize = 0;
    while i < rows.len()
        invariant
            i <= rows@.len(),
            g == rows.deep_view(),
            g.len() == rows@.len(),
            count <= i,
            count == g.take(i as int).filter(|c: CollectionRowV| c.meta.synced_at is None).len(),
        decreases rows@.len() - i,
    {
        proof {
            assert(g.take(i + 1) =~= g.take(i as int).push(g[i as int]));
            crate::util::lemma_filter_push(
                g.take(i as int),
                |c: CollectionRowV| c.meta.synced_at is None,
                g[i as int],
            );
        }
        if rows[i].meta.synced_at.is_none() {
            count += 1;
        }
        i += 1;
    }
    proof {
        assert(g.take(g.len() as int) =~= g);
    }
    count
}

fn count_pending_vocabs(rows: &Vec<crate::store::VocabularyRow>) -> (r: usize)
    ensures
        r == rows.deep_view().filter(|v: VocabularyRowV| v.meta.synced_at is None).len(),
        r <= rows.deep_view().len(),
{
    let ghost g = rows.deep_view();
    let mut count: usize = 0;
    let mut i: usize = 0;
    while i < rows.len()
        invariant
            i <= rows@.len(),
            g == rows.deep_view(),
            g.len() == rows@.len(),
            count <= i,
            count == g.take(i as int).filter(|v: VocabularyRowV| v.meta.synced_at is None).len(),
        decreases rows@.len() - i,
    {
        proof {
            assert(g.take(i + 1) =~= g.take(i as int).push(g[i as int]));
            crate::util::lemma_filter_push(
                g.take(i as int),
                |v: VocabularyRowV| v.meta.synced_at is None,
                g[i as int],
            );
        }
        if rows[i].meta.synced_at.is_none() {
            count += 1;
        }
        i += 1;
    }
    proof {
        assert(g.take(g.len() as int) =~= g);
    }
    count
}

fn count_pending_rows(rows: &Vec<crate::store::GenericRow>) -> (r: usize)
    ensures
        r == rows.deep_view().filter(|g: GenericRowV| g.meta.synced_at is None).len(),
        r <= rows.deep_view().len(),
{
    let ghost g = rows.deep_view();
    let mut count: usize = 0;
    let mut i: usize = 0;
    while i < rows.len()
        invariant
            i <= rows@.len(),
            g == rows.deep_view(),
            g.len() == rows@.len(),
            count <= i,
            count == g.take(i as int).filter(|r: GenericRowV| r.meta.synced_at is None).len(),
        decreases rows@.len() - i,
    {
        proof {
            assert(g.take(i + 1) =~= g.take(i as int).push(g[i as int]));
            crate::util::lemma_filter_push(
                g.take(i as int),
                |r: GenericRowV| r.meta.synced_at is None,
                g[i as int],
            );
        }
        if rows[i].meta.synced_at.is_none() {
            count += 1;
        }
        i += 1;
    }
    proof {
        assert(g.take(g.len() as int) =~= g);
    }
    count
}

/// Consume one pull response: replay its records into the store and then,
/// and only then, persist the checkpoint it carried. A failed pull never
/// reaches this function, so nothing is checkpointed for it.
pub fn apply_pull(
    store: &mut LocalStore,
    pull: &PullResponse,
    current_user_id: Option<&str>,
    now: i64,
)
    requires
        store_wf(old(store)@),
        old(store)@.collections.len() + pull.records@.len() <= MAX_ROWS,
        old(store)@.vocabularies.len() + pull.records@.len() <= MAX_ROWS,
        old(store)@.rows.len() + pull.records@.len() <= MAX_ROWS,
    ensures
        final(store)@ == (StoreV {
            checkpoint_updated_at: Some(pull.checkpoint.updated_at@),
            checkpoint_id: Some(pull.checkpoint.id@),
            ..spec_apply_records(
                old(store)@,
                pull.records.deep_view(),
                current_user_id.deep_view(),
                now,
            )
        }),
        store_wf(final(store)@),
{
    apply_remote_changes(store, &pull.records, current_user_id, now);
    store.save_checkpoint(pull.checkpoint.updated_at.as_str(), pull.checkpoint.id.as_str());
}

/// The report of a sync pass that completed both round trips.
pub fn sync_result_success(pushed: usize, pulled: usize, conflicts: usize, synced_at: i64) -> (r:
    SyncResult)
    ensures
        r.pushed == pushed,
        r.pulled == pulled,
        r.conflicts == conflicts,
        r.success,
        r.error is None,
        r.synced_at == synced_at,
{
    SyncResult { pushed, pulled, conflicts, success: true, error: None, synced_at }
}

/// The standing of the engine between sync passes, from the caller's
/// transport configuration and the store's own bookkeeping.
pub fn get_sync_status(
    configured: bool,
    authenticated: bool,
    server_url: Option<String>,
    store: &LocalStore,
) -> (r: SyncStatus)
    requires
        store_wf(store@),
    ensures
        r.configured == configured,
        r.authenticated == authenticated,
        r.last_sync_at == spec_last_sync_at(store@),
        r.pending_changes == spec_pending_count(store@),
        r.server_url.deep_view() == server_url.deep_view(),
{
    let last_sync_at = last_sync_timestamp(store);
    let pending_changes = count_pending_changes(store);
    SyncStatus { configured, authenticated, last_sync_at, pending_changes, server_url }
}

} // verus!
