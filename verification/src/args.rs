//! The arguments of the command-line subcommands.

use vstd::prelude::*;

verus! {

/// Arguments of `scan`.
#[derive(Debug, Clone)]
pub struct ScanArgs {
    /// Folder to scan.
    pub path: String,
    /// Whether subdirectories are scanned.
    pub recursive: bool,
    /// Media type to show (`series`, `movie`, `anime`).
    pub media_type: Option<String>,
    /// Preview only.
    pub dry_run: bool,
    /// JSON output.
    pub json: bool,
    /// Tree view with subtitles.
    pub tree: bool,
}

/// Arguments of `rename`.
#[derive(Debug, Clone)]
pub struct RenameArgs {
    /// Folder to scan and rename.
    pub path: String,
    /// Whether subdirectories are scanned.
    pub recursive: bool,
    /// Skip the confirmation.
    pub yes: bool,
    /// Show the plan without renaming.
    pub dry_run: bool,
}

/// Arguments of `history`.
#[derive(Debug, Clone)]
pub struct HistoryArgs {
    /// How many batches to show.
    pub limit: Option<usize>,
    /// JSON output.
    pub json: bool,
}

/// Arguments of `undo`.
#[derive(Debug, Clone)]
pub struct UndoArgs {
    /// The batch to undo.
    pub batch_id: String,
}

/// Arguments of `watch`.
#[derive(Debug, Clone)]
pub struct WatchArgs {
    /// Folder to watch.
    pub path: String,
    /// `auto` or `review`.
    pub mode: Option<String>,
    /// Debounce in seconds.
    pub debounce: Option<u64>,
}

/// Arguments of `config`.
#[derive(Debug, Clone)]
pub struct ConfigArgs {
    /// Key to print.
    pub get: Option<String>,
    /// Key and value to set.
    pub set: Option<Vec<String>>,
}

/// Arguments of `review`.
#[derive(Debug, Clone)]
pub struct ReviewArgs {
    /// Approve every pending entry.
    pub approve_all: bool,
    /// Reject every pending entry.
    pub reject_all: bool,
}

/// The debounce a watch runs with: the one given, else five seconds.
pub fn debounce_seconds(args: &WatchArgs) -> (r: u64)
    ensures
        r == match args.debounce {
            Some(d) => d,
            None => 5u64,
        },
{
    match args.debounce {
        Some(d) => d,
        None => 5,
    }
}

} // verus!
