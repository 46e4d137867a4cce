//! Shared domain types: parsed media metadata, scan results, subtitles,
//! renames, history records and watcher settings.
//!
//! Paths are carried as `String`s with `/` as the separator.

use vstd::prelude::*;

use crate::text::contains_seq;
use crate::unicode::lower_text;

verus! {

/// The view of an optional string.
pub open spec fn opt_view(o: Option<String>) -> Option<Seq<char>> {
    match o {
        Some(s) => Some(s@),
        None => None,
    }
}

/// Clones an optional string, keeping its view.
pub fn clone_opt(o: &Option<String>) -> (r: Option<String>)
    ensures
        opt_view(r) == opt_view(*o),
{
    match o {
        Some(s) => Some(s.clone()),
        None => None,
    }
}

/// Clones a vector of strings, keeping every view.
pub fn clone_strings(v: &Vec<String>) -> (r: Vec<String>)
    ensures
        r@.len() == v@.len(),
        forall|i: int| 0 <= i < v@.len() ==> (#[trigger] r@[i])@ == v@[i]@,
{
    let mut r: Vec<String> = Vec::new();
    let mut i: usize = 0;
    while i < v.len()
        invariant
            i <= v.len(),
            r@.len() == i,
            forall|k: int| 0 <= k < i ==> (#[trigger] r@[k])@ == v@[k]@,
        decreases v.len() - i,
    {
        r.push(v[i].clone());
        i = i + 1;
    }
    r
}

/// Views of a vector of strings.
pub open spec fn strings_view(v: Seq<String>) -> Seq<Seq<char>> {
    v.map_values(|s: String| s@)
}

// ---------------------------------------------------------------------------
// Media types
// ---------------------------------------------------------------------------

/// Type of media content. Anime episodes are treated as series.
#[derive(Debug, Clone, Copy, PartialEq, Eq, Structural, Hash)]
pub enum MediaType {
    /// Feature film.
    Movie,
    /// TV series or anime episode.
    Series,
}

impl MediaType {
    /// The display name of the media type.
    pub fn label(&self) -> (r: String)
        ensures
            r@ == (match *self {
                MediaType::Movie => "Movie"@,
                MediaType::Series => "Series"@,
            }),
    {
        match self {
            MediaType::Movie => String::from_str("Movie"),
            MediaType::Series => String::from_str("Series"),
        }
    }
}

/// Parser confidence in the result.
#[derive(Debug, Clone, Copy, PartialEq, Eq, Structural)]
pub enum ParseConfidence {
    /// Unambiguous parse.
    High,
    /// Reasonable guess with some ambiguity.
    Medium,
    /// Significant uncertainty.
    Low,
}

impl ParseConfidence {
    /// The order of confidence levels: `Low < Medium < High`.
    pub open spec fn rank(self) -> int {
        match self {
            ParseConfidence::High => 2,
            ParseConfidence::Medium => 1,
            ParseConfidence::Low => 0,
        }
    }

    /// Whether `self` is strictly more confident than `other`.
    pub fn is_higher_than(&self, other: &ParseConfidence) -> (r: bool)
        ensures
            r == (self.rank() > other.rank()),
    {
        match (self, other) {
            (ParseConfidence::High, ParseConfidence::Medium) => true,
            (ParseConfidence::High, ParseConfidence::Low) => true,
            (ParseConfidence::Medium, ParseConfidence::Low) => true,
            _ => false,
        }
    }
}

/// Parsed metadata from a media filename.
#[derive(Debug, Clone)]
pub struct MediaInfo {
    /// Extracted title.
    pub title: String,
    /// Movie or series.
    pub media_type: MediaType,
    /// Release year.
    pub year: Option<u16>,
    /// Season number.
    pub season: Option<u16>,
    /// Episode numbers (several for multi-episode files).
    pub episodes: Vec<u16>,
    /// Video resolution, e.g. `1080p`.
    pub resolution: Option<String>,
    /// Video codec.
    pub video_codec: Option<String>,
    /// Audio codec.
    pub audio_codec: Option<String>,
    /// Source, e.g. `BluRay`.
    pub source: Option<String>,
    /// Release group.
    pub release_group: Option<String>,
    /// File container / extension, e.g. `mkv`.
    pub container: String,
    /// Content language.
    pub language: Option<String>,
    /// Parser confidence.
    pub confidence: ParseConfidence,
}

/// The mathematical view of [`MediaInfo`].
pub struct MediaInfoV {
    pub title: Seq<char>,
    pub media_type: MediaType,
    pub year: Option<u16>,
    pub season: Option<u16>,
    pub episodes: Seq<u16>,
    pub resolution: Option<Seq<char>>,
    pub video_codec: Option<Seq<char>>,
    pub audio_codec: Option<Seq<char>>,
    pub source: Option<Seq<char>>,
    pub release_group: Option<Seq<char>>,
    pub container: Seq<char>,
    pub language: Option<Seq<char>>,
    pub confidence: ParseConfidence,
}

impl View for MediaInfo {
    type V = MediaInfoV;

    open spec fn view(&self) -> MediaInfoV {
        MediaInfoV {
            title: self.title@,
            media_type: self.media_type,
            year: self.year,
            season: self.season,
            episodes: self.episodes@,
            resolution: opt_view(self.resolution),
            video_codec: opt_view(self.video_codec),
            audio_codec: opt_view(self.audio_codec),
            source: opt_view(self.source),
            release_group: opt_view(self.release_group),
            container: self.container@,
            language: opt_view(self.language),
            confidence: self.confidence,
        }
    }
}

/// The view of an optional [`MediaInfo`].
pub open spec fn opt_info_view(o: Option<MediaInfo>) -> Option<MediaInfoV> {
    match o {
        Some(m) => Some(m@),
        None => None,
    }
}

impl MediaInfo {
    /// A copy with the same view.
    pub fn duplicate(&self) -> (r: MediaInfo)
        ensures
            r@ == self@,
    {
        let mut eps: Vec<u16> = Vec::new();
        let mut i: usize = 0;
        while i < self.episodes.len()
            invariant
                i <= self.episodes@.len(),
                eps@ == self.episodes@.subrange(0, i as int),
            decreases self.episodes@.len() - i,
        {
            eps.push(self.episodes[i]);
            i = i + 1;
        }
        assert(eps@ =~= self.episodes@);
        MediaInfo {
            title: self.title.clone(),
            media_type: self.media_type,
            year: self.year,
            season: self.season,
            episodes: eps,
            resolution: clone_opt(&self.resolution),
            video_codec: clone_opt(&self.video_codec),
            audio_codec: clone_opt(&self.audio_codec),
            source: clone_opt(&self.source),
            release_group: clone_opt(&self.release_group),
            container: self.container.clone(),
            language: clone_opt(&self.language),
            confidence: self.confidence,
        }
    }
}

/// The view of a default [`MediaInfo`]: empty title and container, no
/// optional fields, a movie of medium confidence.
pub open spec fn default_info_view() -> MediaInfoV {
    MediaInfoV {
        title: Seq::<char>::empty(),
        media_type: MediaType::Movie,
        year: None,
        season: None,
        episodes: Seq::<u16>::empty(),
        resolution: None,
        video_codec: None,
        audio_codec: None,
        source: None,
        release_group: None,
        container: Seq::<char>::empty(),
        language: None,
        confidence: ParseConfidence::Medium,
    }
}

impl Default for MediaInfo {
    fn default() -> (r: MediaInfo)
        ensures
            r@ == default_info_view(),
    {
        let r = MediaInfo {
            title: String::new(),
            media_type: MediaType::Movie,
            year: None,
            season: None,
            episodes: Vec::new(),
            resolution: None,
            video_codec: None,
            audio_codec: None,
            source: None,
            release_group: None,
            container: String::new(),
            language: None,
            confidence: ParseConfidence::Medium,
        };
        assert(r@.episodes =~= Seq::<u16>::empty());
        r
    }
}

/// Parent and grandparent folder metadata used to fill gaps in a file's parse.
#[derive(Debug, Clone)]
pub struct FolderContext {
    /// Parse of the file's parent folder name.
    pub parent: Option<MediaInfo>,
    /// Parse of the grandparent folder name.
    pub grandparent: Option<MediaInfo>,
}

impl Default for FolderContext {
    fn default() -> (r: FolderContext)
        ensures
            r.parent is None,
            r.grandparent is None,
    {
        FolderContext { parent: None, grandparent: None }
    }
}

// ---------------------------------------------------------------------------
// Scan types
// ---------------------------------------------------------------------------

/// Status of a scan result entry.
#[derive(Debug, Clone, Copy, PartialEq, Eq, Structural)]
pub enum ScanStatus {
    /// Parsed with high confidence.
    Okay,
    /// Parsed with some ambiguity.
    Ambiguous,
    /// Target path conflicts with another result or an existing file.
    Conflict,
    /// Parse or processing failed.
    Error,
}

/// A source file with its parsed metadata and proposed rename.
#[derive(Debug, Clone)]
pub struct ScanResult {
    /// Original file path.
    pub source_path: String,
    /// Parsed metadata.
    pub media_info: MediaInfo,
    /// Proposed destination path.
    pub proposed_path: String,
    /// Subtitles found for this video.
    pub subtitles: Vec<SubtitleMatch>,
    /// Status of the entry.
    pub status: ScanStatus,
    /// Reason for an `Ambiguous`, `Conflict` or `Error` status.
    pub ambiguity_reason: Option<String>,
    /// Alternative interpretations.
    pub alternatives: Vec<MediaInfo>,
}

/// The view of a [`ScanResult`].
pub struct ScanResultV {
    pub source_path: Seq<char>,
    pub media_info: MediaInfoV,
    pub proposed_path: Seq<char>,
    pub subtitles: Seq<SubtitleMatchV>,
    pub status: ScanStatus,
    pub ambiguity_reason: Option<Seq<char>>,
    pub alternatives: Seq<MediaInfoV>,
}

impl View for ScanResult {
    type V = ScanResultV;

    open spec fn view(&self) -> ScanResultV {
        ScanResultV {
            source_path: self.source_path@,
            media_info: self.media_info@,
            proposed_path: self.proposed_path@,
            subtitles: self.subtitles@.map_values(|m: SubtitleMatch| m@),
            status: self.status,
            ambiguity_reason: opt_view(self.ambiguity_reason),
            alternatives: self.alternatives@.map_values(|m: MediaInfo| m@),
        }
    }
}

// ---------------------------------------------------------------------------
// Subtitle types
// ---------------------------------------------------------------------------

/// A subtitle file matched to a video.
#[derive(Debug, Clone)]
pub struct SubtitleMatch {
    /// Original subtitle path.
    pub source_path: String,
    /// Proposed destination path, following the video's new name.
    pub proposed_path: String,
    /// ISO 639 code, or `und`.
    pub language: String,
    /// Forced / SDH / HI / commentary marker.
    pub subtitle_type: Option<SubtitleType>,
    /// How the subtitle was found.
    pub discovery_method: DiscoveryMethod,
    /// Whether this is the `.idx` half of a VobSub pair.
    pub is_vobsub_pair: bool,
    /// For VobSub: the companion `.sub` path.
    pub companion_path: Option<String>,
}

/// The view of a [`SubtitleMatch`].
pub struct SubtitleMatchV {
    pub source_path: Seq<char>,
    pub proposed_path: Seq<char>,
    pub language: Seq<char>,
    pub subtitle_type: Option<SubtitleType>,
    pub discovery_method: DiscoveryMethod,
    pub is_vobsub_pair: bool,
    pub companion_path: Option<Seq<char>>,
}

impl View for SubtitleMatch {
    type V = SubtitleMatchV;

    open spec fn view(&self) -> SubtitleMatchV {
        SubtitleMatchV {
            source_path: self.source_path@,
            proposed_path: self.proposed_path@,
            language: self.language@,
            subtitle_type: self.subtitle_type,
            discovery_method: self.discovery_method,
            is_vobsub_pair: self.is_vobsub_pair,
            companion_path: opt_view(self.companion_path),
        }
    }
}

/// Subtitle type indicators.
#[derive(Debug, Clone, Copy, PartialEq, Eq, Structural)]
pub enum SubtitleType {
    /// Forced subtitles.
    Forced,
    /// Subtitles for the deaf and hard of hearing.
    Sdh,
    /// Hearing impaired.
    Hi,
    /// Commentary track.
    Commentary,
}

/// The lowercase name of a subtitle type.
pub open spec fn subtitle_type_label(t: SubtitleType) -> Seq<char> {
    match t {
        SubtitleType::Forced => "forced"@,
        SubtitleType::Sdh => "sdh"@,
        SubtitleType::Hi => "hi"@,
        SubtitleType::Commentary => "commentary"@,
    }
}

impl SubtitleType {
    /// The lowercase name used in file names (`forced`, `sdh`, `hi`, `commentary`).
    pub fn label(&self) -> (r: String)
        ensures
            r@ == subtitle_type_label(*self),
    {
        match self {
            SubtitleType::Forced => String::from_str("forced"),
            SubtitleType::Sdh => String::from_str("sdh"),
            SubtitleType::Hi => String::from_str("hi"),
            SubtitleType::Commentary => String::from_str("commentary"),
        }
    }
}

/// How a subtitle was discovered.
#[derive(Debug, Clone, Copy, PartialEq, Eq, Structural)]
pub enum DiscoveryMethod {
    /// Same directory, matching stem.
    Sidecar,
    /// In a `Subs` / `Subtitles` / `Sub` folder.
    SubsSubfolder,
    /// In a language-named folder.
    NestedLanguage,
    /// `.idx` + `.sub` pair.
    VobSub,
}

/// Which discovery methods are active.
#[derive(Debug, Clone, Copy, PartialEq, Eq, Structural)]
pub struct DiscoveryToggles {
    /// Sidecar discovery.
    pub sidecar: bool,
    /// Subs/Subtitles folder discovery.
    pub subs_subfolder: bool,
    /// Language folder discovery.
    pub nested_language_folders: bool,
    /// VobSub pair discovery.
    pub vobsub_pairs: bool,
}

impl Default for DiscoveryToggles {
    fn default() -> (r: DiscoveryToggles)
        ensures
            r.sidecar && r.subs_subfolder && r.nested_language_folders && r.vobsub_pairs,
    {
        DiscoveryToggles {
            sidecar: true,
            subs_subfolder: true,
            nested_language_folders: true,
            vobsub_pairs: true,
        }
    }
}

// ---------------------------------------------------------------------------
// Rename types
// ---------------------------------------------------------------------------

/// How to handle a target path that is already taken.
#[derive(Debug, Clone, Copy, PartialEq, Eq, Structural)]
pub enum ConflictStrategy {
    /// Leave the file unprocessed.
    Skip,
    /// Replace the existing file.
    Overwrite,
    /// Append ` (1)`, ` (2)`, ... to the file stem.
    NumericSuffix,
}

impl Default for ConflictStrategy {
    fn default() -> (r: ConflictStrategy)
        ensures
            r == ConflictStrategy::Skip,
    {
        ConflictStrategy::Skip
    }
}

/// Whether a rename moves or copies the file.
#[derive(Debug, Clone, Copy, PartialEq, Eq, Structural)]
pub enum RenameOperation {
    /// Move (the default).
    Move,
    /// Copy, leaving the source in place.
    Copy,
}

impl Default for RenameOperation {
    fn default() -> (r: RenameOperation)
        ensures
            r == RenameOperation::Move,
    {
        RenameOperation::Move
    }
}

/// Result of one rename.
#[derive(Debug, Clone)]
pub struct RenameResult {
    /// Source path.
    pub source_path: String,
    /// Destination path.
    pub dest_path: String,
    /// Whether the rename succeeded (or would succeed, in a dry run).
    pub success: bool,
    /// Error message on failure.
    pub error: Option<String>,
}

/// The view of a [`RenameResult`].
pub struct RenameResultV {
    pub source_path: Seq<char>,
    pub dest_path: Seq<char>,
    pub success: bool,
    pub error: Option<Seq<char>>,
}

impl View for RenameResult {
    type V = RenameResultV;

    open spec fn view(&self) -> RenameResultV {
        RenameResultV {
            source_path: self.source_path@,
            dest_path: self.dest_path@,
            success: self.success,
            error: opt_view(self.error),
        }
    }
}

impl RenameResult {
    /// A copy of this result.
    pub fn duplicate(&self) -> (r: RenameResult)
        ensures
            r@ == self@,
    {
        RenameResult {
            source_path: self.source_path.clone(),
            dest_path: self.dest_path.clone(),
            success: self.success,
            error: clone_opt(&self.error),
        }
    }
}

/// What to do with subtitles in languages that are not preferred.
#[derive(Debug, Clone, Copy, PartialEq, Eq, Structural)]
pub enum NonPreferredAction {
    /// Leave them in place.
    Ignore,
    /// Move them to the backup path.
    Backup,
    /// Rename all subtitles.
    KeepAll,
    /// Flag them for review.
    Review,
}

impl Default for NonPreferredAction {
    fn default() -> (r: NonPreferredAction)
        ensures
            r == NonPreferredAction::Ignore,
    {
        NonPreferredAction::Ignore
    }
}

// ---------------------------------------------------------------------------
// History types
// ---------------------------------------------------------------------------

/// One recorded rename.
#[derive(Debug, Clone)]
pub struct RenameRecord {
    /// Batch grouping this rename.
    pub batch_id: String,
    /// RFC 3339 timestamp.
    pub timestamp: String,
    /// Path before the rename.
    pub source_path: String,
    /// Path after the rename.
    pub dest_path: String,
    /// Metadata at the time of the rename.
    pub media_info: MediaInfo,
    /// File size in bytes at the time of the rename.
    pub file_size: u64,
    /// Modification time at the time of the rename.
    pub file_mtime: String,
}

/// Summary of a rename batch.
#[derive(Debug, Clone)]
pub struct BatchSummary {
    /// Batch identifier.
    pub batch_id: String,
    /// Timestamp of the batch.
    pub timestamp: String,
    /// Number of files.
    pub file_count: usize,
    /// Records of the batch (empty in listings).
    pub entries: Vec<RenameRecord>,
}

/// Whether a batch can be undone.
#[derive(Debug, Clone)]
pub struct UndoEligibility {
    /// True when no issue was found.
    pub eligible: bool,
    /// The batch checked.
    pub batch_id: String,
    /// One issue per file that cannot be undone.
    pub ineligible_reasons: Vec<UndoIssue>,
}

/// Why one file of a batch cannot be undone.
#[derive(Debug, Clone)]
pub struct UndoIssue {
    /// Destination path that cannot be reversed.
    pub dest_path: String,
    /// Human-readable reason.
    pub reason: String,
}

// ---------------------------------------------------------------------------
// Template types
// ---------------------------------------------------------------------------

/// Advisory warning from template validation.
#[derive(Debug, Clone)]
pub struct TemplateWarning {
    /// The variable concerned.
    pub variable: String,
    /// Warning text.
    pub message: String,
}

// ---------------------------------------------------------------------------
// Filter types
// ---------------------------------------------------------------------------

/// Filter criteria for scan results; every set field must match.
#[derive(Debug, Clone)]
pub struct ScanFilter {
    /// Required media type.
    pub media_type: Option<MediaType>,
    /// Required status.
    pub status: Option<ScanStatus>,
    /// Case-insensitive substring of the title.
    pub title_search: Option<String>,
}

impl Default for ScanFilter {
    fn default() -> (r: ScanFilter)
        ensures
            r.media_type is None,
            r.status is None,
            r.title_search is None,
    {
        ScanFilter { media_type: None, status: None, title_search: None }
    }
}

/// Whether a result with this type, status and title passes the filter.
pub open spec fn filter_accepts(
    filter: ScanFilter,
    media_type: MediaType,
    status: ScanStatus,
    title: Seq<char>,
) -> bool {
    &&& (filter.media_type matches Some(mt) ==> media_type == mt)
    &&& (filter.status matches Some(st) ==> status == st)
    &&& (filter.title_search matches Some(search) ==> contains_seq(
        lower_text(title),
        lower_text(search@),
    ))
}

impl ScanFilter {
    /// Whether `result` matches all active criteria.
    pub fn matches(&self, result: &ScanResult) -> (r: bool)
        ensures
            r == filter_accepts(
                *self,
                result.media_info.media_type,
                result.status,
                result.media_info.title@,
            ),
    {
        if let Some(mt) = self.media_type {
            if result.media_info.media_type != mt {
                return false;
            }
        }
        if let Some(st) = self.status {
            if result.status != st {
                return false;
            }
        }
        if let Some(search) = &self.title_search {
            let search_lower = crate::unicode::lowercase_chars(&crate::text::to_chars(search.as_str()));
            let title_lower = crate::unicode::lowercase_chars(
                &crate::text::to_chars(result.media_info.title.as_str()),
            );
            if !crate::text::has_substring(&title_lower, &search_lower) {
                return false;
            }
        }
        true
    }
}

// ---------------------------------------------------------------------------
// Watcher types
// ---------------------------------------------------------------------------

/// Watcher operating mode.
#[derive(Debug, Clone, Copy, PartialEq, Eq, Structural)]
pub enum WatcherMode {
    /// Scan and rename automatically.
    Auto,
    /// Scan and queue for review.
    Review,
}

impl WatcherMode {
    /// Lowercase name (`auto`, `review`).
    pub fn label(&self) -> (r: String)
        ensures
            r@ == (match *self {
                WatcherMode::Auto => "auto"@,
                WatcherMode::Review => "review"@,
            }),
    {
        match self {
            WatcherMode::Auto => String::from_str("auto"),
            WatcherMode::Review => String::from_str("review"),
        }
    }
}

/// Per-watcher overrides of global settings; `None` falls back to the global value.
#[derive(Debug, Clone, PartialEq)]
pub struct WatcherSettings {
    /// Output directory; an empty string forces in-place renames.
    pub output_dir: Option<String>,
    /// Move or copy.
    pub operation: Option<RenameOperation>,
    /// Conflict strategy.
    pub conflict_strategy: Option<ConflictStrategy>,
    /// Whether to create target directories.
    pub create_directories: Option<bool>,
    /// Movie template.
    pub movie_template: Option<String>,
    /// Series template.
    pub series_template: Option<String>,
    /// Whether subtitle discovery is enabled.
    pub subtitles_enabled: Option<bool>,
    /// Preferred subtitle languages.
    pub preferred_languages: Option<Vec<String>>,
    /// Action for non-preferred subtitles.
    pub non_preferred_action: Option<NonPreferredAction>,
}

/// No override is set.
pub open spec fn settings_empty(s: WatcherSettings) -> bool {
    &&& s.output_dir is None
    &&& s.operation is None
    &&& s.conflict_strategy is None
    &&& s.create_directories is None
    &&& s.movie_template is None
    &&& s.series_template is None
    &&& s.subtitles_enabled is None
    &&& s.preferred_languages is None
    &&& s.non_preferred_action is None
}

impl Default for WatcherSettings {
    fn default() -> (r: WatcherSettings)
        ensures
            settings_empty(r),
    {
        WatcherSettings {
            output_dir: None,
            operation: None,
            conflict_strategy: None,
            create_directories: None,
            movie_template: None,
            series_template: None,
            subtitles_enabled: None,
            preferred_languages: None,
            non_preferred_action: None,
        }
    }
}

impl WatcherSettings {
    /// Whether no override is set.
    pub fn is_empty(&self) -> (r: bool)
        ensures
            r == settings_empty(*self),
    {
        self.output_dir.is_none() && self.operation.is_none() && self.conflict_strategy.is_none()
            && self.create_directories.is_none() && self.movie_template.is_none()
            && self.series_template.is_none() && self.subtitles_enabled.is_none()
            && self.preferred_languages.is_none() && self.non_preferred_action.is_none()
    }
}

/// Configuration of one watched folder.
#[derive(Debug, Clone, PartialEq)]
pub struct WatcherConfig {
    /// Folder to watch.
    pub path: String,
    /// Auto-rename or queue for review.
    pub mode: WatcherMode,
    /// Whether the watcher is active.
    pub active: bool,
    /// Debounce duration in seconds.
    pub debounce_seconds: u64,
    /// Per-watcher overrides.
    pub settings: Option<WatcherSettings>,
}

/// The view of [`WatcherSettings`].
pub struct WatcherSettingsV {
    pub output_dir: Option<Seq<char>>,
    pub operation: Option<RenameOperation>,
    pub conflict_strategy: Option<ConflictStrategy>,
    pub create_directories: Option<bool>,
    pub movie_template: Option<Seq<char>>,
    pub series_template: Option<Seq<char>>,
    pub subtitles_enabled: Option<bool>,
    pub preferred_languages: Option<Seq<Seq<char>>>,
    pub non_preferred_action: Option<NonPreferredAction>,
}

impl View for WatcherSettings {
    type V = WatcherSettingsV;

    open spec fn view(&self) -> WatcherSettingsV {
        WatcherSettingsV {
            output_dir: opt_view(self.output_dir),
            operation: self.operation,
            conflict_strategy: self.conflict_strategy,
            create_directories: self.create_directories,
            movie_template: opt_view(self.movie_template),
            series_template: opt_view(self.series_template),
            subtitles_enabled: self.subtitles_enabled,
            preferred_languages: match self.preferred_languages {
                Some(v) => Some(strings_view(v@)),
                None => None,
            },
            non_preferred_action: self.non_preferred_action,
        }
    }
}

impl WatcherSettings {
    /// A copy with the same view.
    pub fn duplicate(&self) -> (r: WatcherSettings)
        ensures
            r@ == self@,
    {
        let preferred_languages = match &self.preferred_languages {
            Some(v) => {
                let c = clone_strings(v);
                assert(strings_view(c@) =~= strings_view(v@));
                Some(c)
            },
            None => None,
        };
        WatcherSettings {
            output_dir: clone_opt(&self.output_dir),
            operation: self.operation,
            conflict_strategy: self.conflict_strategy,
            create_directories: self.create_directories,
            movie_template: clone_opt(&self.movie_template),
            series_template: clone_opt(&self.series_template),
            subtitles_enabled: self.subtitles_enabled,
            preferred_languages,
            non_preferred_action: self.non_preferred_action,
        }
    }
}

/// The view of a [`WatcherConfig`].
pub struct WatcherConfigV {
    pub path: Seq<char>,
    pub mode: WatcherMode,
    pub active: bool,
    pub debounce_seconds: u64,
    pub settings: Option<WatcherSettingsV>,
}

impl View for WatcherConfig {
    type V = WatcherConfigV;

    open spec fn view(&self) -> WatcherConfigV {
        WatcherConfigV {
            path: self.path@,
            mode: self.mode,
            active: self.active,
            debounce_seconds: self.debounce_seconds,
            settings: match self.settings {
                Some(s) => Some(s@),
                None => None,
            },
        }
    }
}

impl WatcherConfig {
    /// A copy with the same view.
    pub fn duplicate(&self) -> (r: WatcherConfig)
        ensures
            r@ == self@,
    {
        WatcherConfig {
            path: self.path.clone(),
            mode: self.mode,
            active: self.active,
            debounce_seconds: self.debounce_seconds,
            settings: match &self.settings {
                Some(s) => Some(s.duplicate()),
                None => None,
            },
        }
    }
}

/// The views of a list of watcher configurations.
pub open spec fn watchers_view(v: Seq<WatcherConfig>) -> Seq<WatcherConfigV> {
    v.map_values(|w: WatcherConfig| w@)
}

/// A copy of a list of watcher configurations.
pub fn duplicate_watchers(v: &Vec<WatcherConfig>) -> (r: Vec<WatcherConfig>)
    ensures
        watchers_view(r@) == watchers_view(v@),
{
    let mut r: Vec<WatcherConfig> = Vec::new();
    let mut i: usize = 0;
    while i < v.len()
        invariant
            i <= v@.len(),
            r@.len() == i,
            forall|k: int| 0 <= k < i ==> (#[trigger] r@[k])@ == v@[k]@,
        decreases v.len() - i,
    {
        r.push(v[i].duplicate());
        i = i + 1;
    }
    assert(watchers_view(r@) =~= watchers_view(v@));
    r
}

impl Default for WatcherConfig {
    fn default() -> (r: WatcherConfig)
        ensures
            r.path@ == Seq::<char>::empty(),
            r.mode == WatcherMode::Auto,
            r.active,
            r.debounce_seconds == 5,
            r.settings is None,
    {
        WatcherConfig {
            path: String::new(),
            mode: WatcherMode::Auto,
            active: true,
            debounce_seconds: 5,
            settings: None,
        }
    }
}

/// Action taken by the watcher for a file.
#[derive(Debug, Clone, Copy, PartialEq, Eq, Structural)]
pub enum WatcherAction {
    /// Renamed successfully.
    Renamed,
    /// Queued for review.
    Queued,
    /// Processing failed.
    Error,
}

impl WatcherAction {
    /// Lowercase name (`renamed`, `queued`, `error`).
    pub fn label(&self) -> (r: String)
        ensures
            r@ == (match *self {
                WatcherAction::Renamed => "renamed"@,
                WatcherAction::Queued => "queued"@,
                WatcherAction::Error => "error"@,
            }),
    {
        match self {
            WatcherAction::Renamed => String::from_str("renamed"),
            WatcherAction::Queued => String::from_str("queued"),
            WatcherAction::Error => String::from_str("error"),
        }
    }
}

/// A logged watcher event.
#[derive(Debug, Clone)]
pub struct WatcherEvent {
    /// Row id (`None` before insertion).
    pub id: Option<i64>,
    /// RFC 3339 timestamp.
    pub timestamp: String,
    /// Watched folder.
    pub watch_path: String,
    /// File name detected.
    pub filename: String,
    /// Action taken.
    pub action: WatcherAction,
    /// Target path or error message.
    pub detail: Option<String>,
    /// Rename batch, if any.
    pub batch_id: Option<String>,
}

/// Review queue status.
#[derive(Debug, Clone, Copy, PartialEq, Eq, Structural)]
pub enum ReviewStatus {
    /// Awaiting review.
    Pending,
    /// Approved.
    Approved,
    /// Rejected.
    Rejected,
}

impl ReviewStatus {
    /// Lowercase name (`pending`, `approved`, `rejected`).
    pub fn label(&self) -> (r: String)
        ensures
            r@ == (match *self {
                ReviewStatus::Pending => "pending"@,
                ReviewStatus::Approved => "approved"@,
                ReviewStatus::Rejected => "rejected"@,
            }),
    {
        match self {
            ReviewStatus::Pending => String::from_str("pending"),
            ReviewStatus::Approved => String::from_str("approved"),
            ReviewStatus::Rejected => String::from_str("rejected"),
        }
    }
}

/// An entry of the review queue.
#[derive(Debug, Clone)]
pub struct ReviewQueueEntry {
    /// Row id (`None` before insertion).
    pub id: Option<i64>,
    /// Timestamp of queueing.
    pub timestamp: String,
    /// Watched folder.
    pub watch_path: String,
    /// Source file.
    pub source_path: String,
    /// Proposed destination.
    pub proposed_path: String,
    /// Metadata as JSON.
    pub media_info_json: String,
    /// Subtitle matches as JSON.
    pub subtitles_json: String,
    /// Review status.
    pub status: ReviewStatus,
}

} // verus!
