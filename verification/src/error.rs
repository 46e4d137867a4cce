//! The library's error type.

use vstd::prelude::*;
use crate::text::cat;

verus! {

/// Errors of every operation of the library. Paths and causes are carried
/// as text.
#[derive(Debug, Clone)]
pub enum MediError {
    /// Filename parsing failed entirely.
    ParseFailed(String),
    /// No title could be extracted from the filename.
    NoTitle { filename: String },
    /// The template is invalid (e.g. it produces a path traversal).
    InvalidTemplate(String),
    /// The template references an unknown variable.
    UnknownVariable { name: String },
    /// The template uses an unsupported format modifier.
    InvalidModifier { modifier: String },
    /// The scan path does not exist.
    ScanPathNotFound { path: String },
    /// The scan path is not a directory.
    ScanPathNotDirectory { path: String },
    /// A rename (move) failed.
    RenameFailed { from: String, to: String, cause: String },
    /// A cross-filesystem copy produced a file of another size.
    CopyVerificationFailed { from: String, to: String },
    /// The target already exists.
    ConflictExists { path: String },
    /// All numeric suffixes (1)..(99) are taken.
    ConflictResolutionExhausted { path: String },
    /// The path is not valid UTF-8 (its bytes).
    NonUtf8Path { path: Vec<u8> },
    /// History database error.
    HistoryDb(String),
    /// The batch cannot be undone.
    UndoNotEligible { batch_id: String, reason: String },
    /// The configuration file could not be parsed.
    ConfigParse(String),
    /// The configuration could not be serialised.
    ConfigSerialize(String),
    /// The platform configuration directory is unknown.
    ConfigPathUnavailable,
    /// Generic I/O error.
    Io(String),
    /// JSON error.
    Json(String),
    /// Subtitle discovery error.
    SubtitleDiscovery(String),
    /// Watcher error.
    Watcher(String),
}

/// The view of a [`MediError`].
pub enum MediErrorV {
    ParseFailed(Seq<char>),
    NoTitle { filename: Seq<char> },
    InvalidTemplate(Seq<char>),
    UnknownVariable { name: Seq<char> },
    InvalidModifier { modifier: Seq<char> },
    ScanPathNotFound { path: Seq<char> },
    ScanPathNotDirectory { path: Seq<char> },
    RenameFailed { from: Seq<char>, to: Seq<char>, cause: Seq<char> },
    CopyVerificationFailed { from: Seq<char>, to: Seq<char> },
    ConflictExists { path: Seq<char> },
    ConflictResolutionExhausted { path: Seq<char> },
    NonUtf8Path { path: Seq<u8> },
    HistoryDb(Seq<char>),
    UndoNotEligible { batch_id: Seq<char>, reason: Seq<char> },
    ConfigParse(Seq<char>),
    ConfigSerialize(Seq<char>),
    ConfigPathUnavailable,
    Io(Seq<char>),
    Json(Seq<char>),
    SubtitleDiscovery(Seq<char>),
    Watcher(Seq<char>),
}

impl View for MediError {
    type V = MediErrorV;

    open spec fn view(&self) -> MediErrorV {
        match self {
            MediError::ParseFailed(s) => MediErrorV::ParseFailed(s@),
            MediError::NoTitle { filename } => MediErrorV::NoTitle { filename: filename@ },
            MediError::InvalidTemplate(s) => MediErrorV::InvalidTemplate(s@),
            MediError::UnknownVariable { name } => MediErrorV::UnknownVariable { name: name@ },
            MediError::InvalidModifier { modifier } => MediErrorV::InvalidModifier {
                modifier: modifier@,
            },
            MediError::ScanPathNotFound { path } => MediErrorV::ScanPathNotFound { path: path@ },
            MediError::ScanPathNotDirectory { path } => MediErrorV::ScanPathNotDirectory {
                path: path@,
            },
            MediError::RenameFailed { from, to, cause } => MediErrorV::RenameFailed {
                from: from@,
                to: to@,
                cause: cause@,
            },
            MediError::CopyVerificationFailed { from, to } => MediErrorV::CopyVerificationFailed {
                from: from@,
                to: to@,
            },
            MediError::ConflictExists { path } => MediErrorV::ConflictExists { path: path@ },
            MediError::ConflictResolutionExhausted { path } =>
                MediErrorV::ConflictResolutionExhausted { path: path@ },
            MediError::NonUtf8Path { path } => MediErrorV::NonUtf8Path { path: path@ },
            MediError::HistoryDb(s) => MediErrorV::HistoryDb(s@),
            MediError::UndoNotEligible { batch_id, reason } => MediErrorV::UndoNotEligible {
                batch_id: batch_id@,
                reason: reason@,
            },
            MediError::ConfigParse(s) => MediErrorV::ConfigParse(s@),
            MediError::ConfigSerialize(s) => MediErrorV::ConfigSerialize(s@),
            MediError::ConfigPathUnavailable => MediErrorV::ConfigPathUnavailable,
            MediError::Io(s) => MediErrorV::Io(s@),
            MediError::Json(s) => MediErrorV::Json(s@),
            MediError::SubtitleDiscovery(s) => MediErrorV::SubtitleDiscovery(s@),
            MediError::Watcher(s) => MediErrorV::Watcher(s@),
        }
    }
}

/// The human-readable message of an error.
pub open spec fn error_message(e: MediErrorV) -> Seq<char> {
    match e {
        MediErrorV::ParseFailed(s) => "failed to parse filename: "@ + s,
        MediErrorV::NoTitle { filename } => "no title extracted from filename: "@ + filename,
        MediErrorV::InvalidTemplate(s) => "invalid template: "@ + s,
        MediErrorV::UnknownVariable { name } => "unknown template variable: "@ + name,
        MediErrorV::InvalidModifier { modifier } => "invalid format modifier: "@ + modifier,
        MediErrorV::ScanPathNotFound { path } => "scan path does not exist: "@ + path,
        MediErrorV::ScanPathNotDirectory { path } => "scan path is not a directory: "@ + path,
        MediErrorV::RenameFailed { from, to, cause } => "rename failed: "@ + from + " -> "@ + to
            + ": "@ + cause,
        MediErrorV::CopyVerificationFailed { from, to } => "copy verification failed: "@ + from
            + " -> "@ + to + " (size mismatch)"@,
        MediErrorV::ConflictExists { path } => "conflict: target already exists: "@ + path,
        MediErrorV::ConflictResolutionExhausted { path } =>
            "conflict resolution exhausted: all suffixes (1)--(99) exist for "@ + path,
        MediErrorV::NonUtf8Path { path } => "path contains non-UTF-8 bytes, cannot store: "@
            + crate::fs_util::lossy_text(path),
        MediErrorV::HistoryDb(s) => "history database error: "@ + s,
        MediErrorV::UndoNotEligible { batch_id, reason } => "undo not eligible for batch "@
            + batch_id + ": "@ + reason,
        MediErrorV::ConfigParse(s) => "config parse error: "@ + s,
        MediErrorV::ConfigSerialize(s) => "config serialize error: "@ + s,
        MediErrorV::ConfigPathUnavailable =>
            "config path not available: platform config directory could not be determined"@,
        MediErrorV::Io(s) => "I/O error: "@ + s,
        MediErrorV::Json(s) => "JSON error: "@ + s,
        MediErrorV::SubtitleDiscovery(s) => "subtitle discovery error: "@ + s,
        MediErrorV::Watcher(s) => "watcher error: "@ + s,
    }
}

impl MediError {
    /// The human-readable message of the error.
    pub fn message(&self) -> (r: String)
        ensures
            r@ == error_message(self@),
    {
        match self {
            MediError::ParseFailed(s) => cat("failed to parse filename: ", s.as_str()),
            MediError::NoTitle { filename } => cat(
                "no title extracted from filename: ",
                filename.as_str(),
            ),
            MediError::InvalidTemplate(s) => cat("invalid template: ", s.as_str()),
            MediError::UnknownVariable { name } => cat("unknown template variable: ", name.as_str()),
            MediError::InvalidModifier { modifier } => cat(
                "invalid format modifier: ",
                modifier.as_str(),
            ),
            MediError::ScanPathNotFound { path } => cat("scan path does not exist: ", path.as_str()),
            MediError::ScanPathNotDirectory { path } => cat(
                "scan path is not a directory: ",
                path.as_str(),
            ),
            MediError::RenameFailed { from, to, cause } => {
                let a = cat("rename failed: ", from.as_str());
                let b = a.concat(" -> ");
                let c = b.concat(to.as_str());
                let d = c.concat(": ");
                d.concat(cause.as_str())
            },
            MediError::CopyVerificationFailed { from, to } => {
                let a = cat("copy verification failed: ", from.as_str());
                let b = a.concat(" -> ");
                let c = b.concat(to.as_str());
                c.concat(" (size mismatch)")
            },
            MediError::ConflictExists { path } => cat(
                "conflict: target already exists: ",
                path.as_str(),
            ),
            MediError::ConflictResolutionExhausted { path } => cat(
                "conflict resolution exhausted: all suffixes (1)--(99) exist for ",
                path.as_str(),
            ),
            MediError::NonUtf8Path { path } => cat(
                "path contains non-UTF-8 bytes, cannot store: ",
                crate::fs_util::bytes_to_lossy(path.as_slice()).as_str(),
            ),
            MediError::HistoryDb(s) => cat("history database error: ", s.as_str()),
            MediError::UndoNotEligible { batch_id, reason } => {
                let a = cat("undo not eligible for batch ", batch_id.as_str());
                let b = a.concat(": ");
                b.concat(reason.as_str())
            },
            MediError::ConfigParse(s) => cat("config parse error: ", s.as_str()),
            MediError::ConfigSerialize(s) => cat("config serialize error: ", s.as_str()),
            MediError::ConfigPathUnavailable => String::from_str(
                "config path not available: platform config directory could not be determined",
            ),
            MediError::Io(s) => cat("I/O error: ", s.as_str()),
            MediError::Json(s) => cat("JSON error: ", s.as_str()),
            MediError::SubtitleDiscovery(s) => cat("subtitle discovery error: ", s.as_str()),
            MediError::Watcher(s) => cat("watcher error: ", s.as_str()),
        }
    }
}

} // verus!
