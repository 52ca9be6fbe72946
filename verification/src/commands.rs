//! What the front end's commands answer, and the small decisions the
//! commands make between the services and their answers.

use vstd::prelude::*;
use crate::error::{err_at, AppError, ErrorCode};
use crate::models::{
    clone_opt_string, opt_string_view, AuditLogDto, CleanupFailedItem, CleanupSuggestion, FileNode,
    QuarantineItemDto,
};
use crate::scan::ScanSnapshot;
use crate::text::{chars_of, eq_chars};

verus! {

/// The assistant's answer.
#[derive(Debug)]
pub struct AiChatResponse {
    pub message: String,
    pub disclaimer: String,
}

/// The outcome of a connection test.
#[derive(Debug)]
pub struct AiTestConnectionResponse {
    pub status: String,
    pub message: String,
    pub provider: String,
}

/// One page of the audit log and the number of matching entries.
#[derive(Debug)]
pub struct AuditListResponse {
    pub items: Vec<AuditLogDto>,
    pub total: u64,
}

/// Where the audit log was exported.
#[derive(Debug)]
pub struct AuditExportResponse {
    pub file_path: String,
}

/// How many audit entries were deleted.
#[derive(Debug)]
pub struct AuditClearResponse {
    pub deleted: u32,
}

/// How many items were cleaned up, and those that could not be.
#[derive(Debug)]
pub struct CleanupExecuteResponse {
    pub success_count: u32,
    pub failed: Vec<CleanupFailedItem>,
}

/// The children of a folder in the index.
#[derive(Debug)]
pub struct FileNodesResponse {
    pub nodes: Vec<FileNode>,
}

/// Entries of the index found by a search or a top list.
#[derive(Debug)]
pub struct FileItemsResponse {
    pub items: Vec<FileNode>,
}

/// How many index entries were deleted.
#[derive(Debug)]
pub struct IndexClearResponse {
    pub deleted_entries: u64,
}

/// The quarantined items and their number.
#[derive(Debug)]
pub struct QuarantineListResponse {
    pub items: Vec<QuarantineItemDto>,
    pub total: u64,
}

/// How many items were restored, and those that could not be.
#[derive(Debug)]
pub struct QuarantineRestoreResponse {
    pub restored: u32,
    pub failed: Vec<RestoreFailedItem>,
}

/// A quarantined item that could not be restored, and why.
#[derive(Debug)]
pub struct RestoreFailedItem {
    pub id: String,
    pub reason: String,
}

/// How many quarantined items were purged.
#[derive(Debug)]
pub struct QuarantinePurgeResponse {
    pub purged_count: u32,
}

/// A page of cleanup suggestions, the bytes all matching suggestions would
/// free, and their number.
#[derive(Debug)]
pub struct SuggestionsResponse {
    pub items: Vec<CleanupSuggestion>,
    pub releasable_bytes: u64,
    pub total: u64,
}

/// The id of the scan that was started.
#[derive(Debug)]
pub struct ScanStartResponse {
    pub scan_run_id: String,
}

/// The scanner's status.
#[derive(Debug)]
pub struct ScanStatusResponse {
    pub status: String,
    pub progress_percent: u32,
    pub scanned_files: u64,
    pub skipped_files: u64,
    pub last_completed_at: Option<String>,
}

/// The scanner's status after a pause, resume or cancel.
#[derive(Debug)]
pub struct ScanStatusOnlyResponse {
    pub status: String,
}

/// The two kinds of scan.
#[derive(Debug, PartialEq, Eq, Structural, Clone, Copy)]
pub enum ScanKind {
    Full,
    Incremental,
}

/// The scan kind named `full` or `incremental`; any other name is refused.
pub fn parse_scan_kind(scan_type: &str) -> (r: Result<ScanKind, AppError>)
    ensures
        scan_type@ == "full"@ <==> r == Ok::<ScanKind, AppError>(ScanKind::Full),
        scan_type@ == "incremental"@ <==> r == Ok::<ScanKind, AppError>(ScanKind::Incremental),
        r matches Err(e) ==> e.code == ErrorCode::BadArgument
            && e.message@ == "scan type 必须为 full 或 incremental"@
            && (e.target matches Some(t) && t@ == "scan"@),
{
    proof {
        reveal_strlit("full");
        reveal_strlit("incremental");
        assert("full"@.len() != "incremental"@.len());
    }
    if eq_chars(&chars_of(scan_type), &chars_of("full")) {
        Ok(ScanKind::Full)
    } else if eq_chars(&chars_of(scan_type), &chars_of("incremental")) {
        Ok(ScanKind::Incremental)
    } else {
        Err(err_at(ErrorCode::BadArgument, "scan type 必须为 full 或 incremental", "scan"))
    }
}

/// The scanner's status from its snapshot; the last completion recorded in
/// the index wins over the one the snapshot holds.
pub fn scan_status_response(snap: &ScanSnapshot, recorded_last_completed_at: Option<String>) -> (r: ScanStatusResponse)
    ensures
        r.status@ == snap.status@,
        r.progress_percent == snap.progress_percent,
        r.scanned_files == snap.scanned_files,
        r.skipped_files == snap.skipped_files,
        opt_string_view(r.last_completed_at) == match recorded_last_completed_at {
            Some(t) => Some(t@),
            None => opt_string_view(snap.last_completed_at),
        },
{
    let last_completed_at = match recorded_last_completed_at {
        Some(t) => Some(t),
        None => clone_opt_string(&snap.last_completed_at),
    };
    ScanStatusResponse {
        status: snap.status.clone(),
        progress_percent: snap.progress_percent,
        scanned_files: snap.scanned_files,
        skipped_files: snap.skipped_files,
        last_completed_at,
    }
}

/// The quarantine list with its length as the total.
pub fn quarantine_list_response(items: Vec<QuarantineItemDto>) -> (r: QuarantineListResponse)
    ensures
        r.items@ == items@,
        r.total == items.len(),
{
    let total = items.len() as u64;
    QuarantineListResponse { items, total }
}

/// The failed restores, each an id with its reason, in the given order.
pub fn restore_failed_items(failed: Vec<(String, String)>) -> (r: Vec<RestoreFailedItem>)
    ensures
        r.len() == failed.len(),
        forall|i: int| 0 <= i < failed.len() ==> (#[trigger] r@[i]).id@ == failed@[i].0@
            && r@[i].reason@ == failed@[i].1@,
{
    let mut out: Vec<RestoreFailedItem> = Vec::new();
    let mut i: usize = 0;
    while i < failed.len()
        invariant
            i <= failed.len(),
            out.len() == i,
            forall|k: int| 0 <= k < i ==> (#[trigger] out@[k]).id@ == failed@[k].0@
                && out@[k].reason@ == failed@[k].1@,
        decreases failed.len() - i,
    {
        let pair = &failed[i];
        let id = pair.0.clone();
        let reason = pair.1.clone();
        out.push(RestoreFailedItem { id, reason });
        i = i + 1;
    }
    out
}

} // verus!
