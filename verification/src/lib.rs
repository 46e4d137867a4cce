//! Core library for renaming and organising media files: filename parsing,
//! naming templates, subtitle discovery, scanning, rename plans, undo
//! decisions, configuration and the folder watcher's decisions.

pub mod text;
pub mod numeric;
pub mod unicode;
pub mod types;
pub mod error;
pub mod template;
pub mod parser;
pub mod paths;
pub mod subtitle;
pub mod config;
pub mod renamer;
pub mod fs_util;
pub mod scanner;
pub mod history;
pub mod watcher;
pub mod output;
pub mod commands;
pub mod desktop;
pub mod config_tree;
pub mod selection;
pub mod args;

pub use config::Config;
pub use error::MediError;
pub use fs_util::{is_video_file, path_to_utf8};
pub use parser::{parse_filename, parse_with_context};
pub use renamer::{RenamePlan, RenamePlanEntry, Renamer};
pub use scanner::Scanner;
pub use subtitle::SubtitleDiscovery;
pub use template::TemplateEngine;
pub use types::{
    BatchSummary, ConflictStrategy, DiscoveryMethod, DiscoveryToggles, FolderContext, MediaInfo,
    MediaType, NonPreferredAction, ParseConfidence, RenameOperation, RenameRecord, RenameResult,
    ReviewQueueEntry, ReviewStatus, ScanFilter, ScanResult, ScanStatus, SubtitleMatch,
    SubtitleType, TemplateWarning, UndoEligibility, UndoIssue, WatcherAction, WatcherConfig,
    WatcherEvent, WatcherMode, WatcherSettings,
};
