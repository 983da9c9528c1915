//! Wire-format types exchanged with the remote authority, and the results
//! the engine reports to its caller.

use vstd::prelude::*;

use crate::json::{JsonV, JsonValue};

verus! {

/// The wire-format unit of synchronization: one row of one table, with the
/// revision the authority assigned to it and a tombstone flag. A deleted
/// record carries no payload.
#[derive(Debug)]
pub struct SyncRecord {
    pub table_name: String,
    pub row_id: String,
    pub version: i64,
    pub deleted: bool,
    pub data: JsonValue,
}

/// Mathematical shape of a wire record.
#[verifier::ext_equal]
pub struct RecordV {
    pub table_name: Seq<char>,
    pub row_id: Seq<char>,
    pub version: i64,
    pub deleted: bool,
    pub data: JsonV,
}

impl DeepView for SyncRecord {
    type V = RecordV;

    open spec fn deep_view(&self) -> RecordV {
        RecordV {
            table_name: self.table_name@,
            row_id: self.row_id@,
            version: self.version,
            deleted: self.deleted,
            data: self.data.deep_view(),
        }
    }
}

/// Resumable cursor over the authority's change log, in its persisted form:
/// an RFC3339 timestamp and an opaque id, both required for the checkpoint
/// to be valid.
#[derive(Debug, Clone)]
pub struct Checkpoint {
    pub updated_at: String,
    pub id: String,
}

/// Mathematical shape of a checkpoint.
#[verifier::ext_equal]
pub struct CheckpointV {
    pub updated_at: Seq<char>,
    pub id: Seq<char>,
}

impl DeepView for Checkpoint {
    type V = CheckpointV;

    open spec fn deep_view(&self) -> CheckpointV {
        CheckpointV { updated_at: self.updated_at@, id: self.id@ }
    }
}

impl Checkpoint {
    /// A checkpoint from its two persisted entries.
    pub fn new(updated_at: String, id: String) -> (r: Checkpoint)
        ensures
            r.deep_view() == (CheckpointV { updated_at: updated_at@, id: id@ }),
    {
        Checkpoint { updated_at, id }
    }
}

/// What the authority answered to a push: how many records it accepted and
/// the row ids it refused as conflicting.
#[derive(Debug)]
pub struct PushResponse {
    pub synced: usize,
    pub conflicts: Vec<String>,
}

/// What the authority answered to a pull: the records changed since the
/// given cursor and the cursor to resume from next time.
#[derive(Debug)]
pub struct PullResponse {
    pub records: Vec<SyncRecord>,
    pub checkpoint: Checkpoint,
}

/// Outcome of one sync pass, as reported to the caller.
#[derive(Debug, Clone)]
pub struct SyncResult {
    pub pushed: usize,
    pub pulled: usize,
    pub conflicts: usize,
    pub success: bool,
    pub error: Option<String>,
    pub synced_at: i64,
}

/// Standing of the engine between sync passes.
#[derive(Debug, Clone)]
pub struct SyncStatus {
    pub configured: bool,
    pub authenticated: bool,
    pub last_sync_at: Option<i64>,
    pub pending_changes: usize,
    pub server_url: Option<String>,
}

} // verus!
