//! Data carried between the library and the front end.

use vstd::prelude::*;

verus! {

/// The text of an optional string.
pub open spec fn opt_string_view(s: Option<String>) -> Option<Seq<char>> {
    match s {
        Some(x) => Some(x@),
        None => None,
    }
}

/// A copy of an optional string.
pub fn clone_opt_string(s: &Option<String>) -> (r: Option<String>)
    ensures
        opt_string_view(r) == opt_string_view(*s),
{
    match s {
        Some(x) => Some(x.clone()),
        None => None,
    }
}

/// An indexed file or folder that a cleanup rule suggests removing.
#[derive(Debug)]
pub struct CleanupSuggestion {
    pub path: String,
    pub is_dir: bool,
    pub size_bytes: u64,
    pub risk: String,
    pub category: String,
    pub rule_id: String,
    pub description: String,
    pub restore_hint: String,
    pub last_modified: Option<String>,
}

/// The content of a [`CleanupSuggestion`].
pub struct SuggestionView {
    pub path: Seq<char>,
    pub is_dir: bool,
    pub size_bytes: u64,
    pub risk: Seq<char>,
    pub category: Seq<char>,
    pub rule_id: Seq<char>,
    pub description: Seq<char>,
    pub restore_hint: Seq<char>,
    pub last_modified: Option<Seq<char>>,
}

impl View for CleanupSuggestion {
    type V = SuggestionView;

    open spec fn view(&self) -> SuggestionView {
        SuggestionView {
            path: self.path@,
            is_dir: self.is_dir,
            size_bytes: self.size_bytes,
            risk: self.risk@,
            category: self.category@,
            rule_id: self.rule_id@,
            description: self.description@,
            restore_hint: self.restore_hint@,
            last_modified: opt_string_view(self.last_modified),
        }
    }
}

/// A path that the user chose to clean up.
#[derive(Debug, Clone)]
pub struct CleanupExecuteItem {
    pub path: String,
}

/// A path that could not be cleaned up, with the reason.
#[derive(Debug)]
pub struct CleanupFailedItem {
    pub path: String,
    pub reason: String,
}

/// A quarantined item as the quarantine list shows it.
#[derive(Debug)]
pub struct QuarantineItemDto {
    pub id: String,
    pub original_path: String,
    pub quarantine_path: String,
    pub size_bytes: u64,
    pub moved_at: String,
    pub expires_at: String,
    pub status: String,
    pub risk: String,
}

/// One entry of the audit log.
#[derive(Debug)]
pub struct AuditLogDto {
    pub id: String,
    pub occurred_at: String,
    pub event_type: String,
    pub summary: String,
    pub result: String,
    pub related_path: Option<String>,
}

/// A file or folder of the scan index.
#[derive(Debug)]
pub struct FileNode {
    pub path: String,
    pub name: String,
    pub is_dir: bool,
    pub size_bytes: u64,
    pub folder_size: u64,
    pub modified_at: Option<String>,
    pub extension: Option<String>,
    pub coverage: String,
}

} // verus!
