//! Error type and result rows shared by storage backends, and the
//! combined storage interface.
use vstd::prelude::*;

use crate::reminders::store::ReminderStore;
use crate::storage::memory::TaintStore;

verus! {

/// Why a storage operation failed.
#[derive(Debug, Clone, PartialEq, Eq)]
pub enum StorageError {
    ObjectNotFound(String),
    CommitNotFound(String),
    RefNotFound(String),
    NamespaceNotFound(String),
    NamespaceAlreadyExists(String),
    CasConflict { name: String, expected: String, actual: String },
    DuplicateRef(String),
    Backend(String),
    Serialization(String),
    EpochAlreadySealed { id: String },
    SessionEnded { id: String },
    InvalidOperation(String),
}

/// One row of the per-day history rollup.
#[derive(Debug, Clone, PartialEq, Eq)]
pub struct HistoryRollupRow {
    pub day: String,
    pub namespace: String,
    pub agent_id: String,
    pub intent_category: String,
    pub commit_count: i64,
    pub first_ts: String,
    pub last_ts: String,
}

/// Per-table on-disk size, largest first.
#[derive(Debug, Clone, PartialEq, Eq)]
pub struct TableBytes {
    pub name: String,
    pub bytes: i64,
}

/// Physical shape of the store: how many objects and commits, how many
/// bytes, and where they live. `tables` is filled only where the backend
/// can measure per-table sizes (`dbstat_available`).
#[derive(Debug, Clone, PartialEq, Eq)]
pub struct StoreShape {
    pub objects: i64,
    pub commits: i64,
    pub total_bytes: i64,
    pub tables: Vec<TableBytes>,
    pub dbstat_available: bool,
}

impl Default for StoreShape {
    fn default() -> (r: Self)
        ensures
            r.objects == 0 && r.commits == 0 && r.total_bytes == 0,
            r.tables@.len() == 0,
            !r.dbstat_available,
    {
        StoreShape { objects: 0, commits: 0, total_bytes: 0, tables: Vec::new(), dbstat_available: false }
    }
}

/// Result of a garbage-collection reachability mark: live objects
/// (reachable from the given roots) against the total, and the
/// reclaimable remainder.
#[derive(Debug, Clone, PartialEq, Eq)]
pub struct GcReachability {
    pub total_objects: i64,
    pub live_objects: i64,
    pub reclaimable_objects: i64,
    /// Root state roots the mark started from.
    pub roots_walked: usize,
}

impl Default for GcReachability {
    fn default() -> (r: Self)
        ensures
            r.total_objects == 0 && r.live_objects == 0 && r.reclaimable_objects == 0,
            r.roots_walked == 0,
    {
        GcReachability { total_objects: 0, live_objects: 0, reclaimable_objects: 0, roots_walked: 0 }
    }
}

/// Result of a garbage-collection sweep: how many objects were deleted.
#[derive(Debug, Clone, PartialEq, Eq)]
pub struct GcSweep {
    pub objects_before: i64,
    pub objects_deleted: i64,
    pub objects_after: i64,
    /// Objects the sweep set out to delete; equals `objects_deleted` on a
    /// complete run.
    pub deleted_target: i64,
}

impl Default for GcSweep {
    fn default() -> (r: Self)
        ensures
            r.objects_before == 0 && r.objects_deleted == 0 && r.objects_after == 0,
            r.deleted_target == 0,
    {
        GcSweep { objects_before: 0, objects_deleted: 0, objects_after: 0, deleted_target: 0 }
    }
}

/// Combined storage interface: a backend that keeps both taints and
/// reminders.
pub trait Storage: TaintStore + ReminderStore {}

/// Anything that keeps taints and reminders is a `Storage`.
impl<T: TaintStore + ReminderStore> Storage for T {}

} // verus!
