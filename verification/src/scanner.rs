//! Scanning: parse each video file's name, render its new path, find its
//! subtitles, and flag conflicts between the proposed paths.
//!
//! What the scan reads of the disk (what a path is, the files below a
//! folder, directory listings, the paths that exist) is handed in.

use vstd::prelude::*;
use crate::config::{Config, ConfigV};
use crate::error::{error_message, MediError, MediErrorV};
use crate::fs_util::{extension_of, is_video_file, is_video_path, path_extension};
use crate::parser::{hunch_output, map_hunch_spec, parse_filename, parse_with_context, strs_view, info_result_view};
use crate::paths::{file_stem, join_path, name_part, parent_part, path_join, split_file_name, split_path};
use crate::subtitle::{classified, found_for_video, FileEntry, FolderListing, SubfolderListing, SubtitleDiscovery};
use crate::template::{render_spec, text_result_view, TemplateEngine};
use crate::text::{cat, from_chars, to_chars};
use crate::types::{
    clone_strings, default_info_view, filter_accepts, opt_view, strings_view, MediaInfo, MediaInfoV,
    MediaType, ParseConfidence, ScanFilter, ScanResult, ScanResultV, ScanStatus, SubtitleMatch,
    SubtitleMatchV,
};
use crate::unicode::{lower_text, str_to_lowercase};

verus! {

/// What a path is on disk.
#[derive(Debug, Clone, Copy)]
pub struct PathProbe {
    /// Whether something exists there.
    pub exists: bool,
    /// Whether it is a regular file (symbolic links followed).
    pub is_file: bool,
    /// Whether it is a directory (symbolic links followed).
    pub is_dir: bool,
}

/// Orchestrates scans with one configuration.
pub struct Scanner {
    config: Config,
    template_engine: TemplateEngine,
}

/// The template for a media type.
pub open spec fn template_for(config: ConfigV, t: MediaType) -> Seq<char> {
    match t {
        MediaType::Movie => config.templates.movie,
        MediaType::Series => config.templates.series,
    }
}

/// The status, and its reason, that a parse confidence gives.
pub open spec fn status_for(c: ParseConfidence) -> (ScanStatus, Option<Seq<char>>) {
    match c {
        ParseConfidence::Low => (ScanStatus::Ambiguous, Some("low confidence parse"@)),
        ParseConfidence::Medium => (ScanStatus::Ambiguous, Some("medium confidence parse"@)),
        ParseConfidence::High => (ScanStatus::Okay, None),
    }
}

/// Where a rendered relative path goes: under the output directory, or
/// next to the source when renaming in place.
pub open spec fn proposed_location(config: ConfigV, source: Seq<char>, relative: Seq<char>) -> Seq<
    char,
> {
    match config.general.output_dir {
        Some(d) => path_join(d, relative),
        None => path_join(parent_part(source), relative),
    }
}

/// The stem of a path's file name, empty when it has none.
pub open spec fn path_stem(p: Seq<char>) -> Seq<char> {
    let n = name_part(p);
    if n.len() == 0 || n == seq!['.', '.'] {
        Seq::<char>::empty()
    } else {
        file_stem(n)
    }
}

/// The subtitles of a video when subtitles are enabled: placed in the
/// directory of its proposed path and named after its proposed stem.
pub open spec fn subtitles_for(
    config: ConfigV,
    video: Seq<char>,
    proposed: Seq<char>,
    entries: Seq<FileEntry>,
    subfolders: Seq<SubfolderListing>,
) -> Seq<SubtitleMatchV> {
    if config.subtitles.enabled {
        found_for_video(config.subtitles.discovery, video, entries, subfolders).map_values(
            |f| classified(f, path_stem(proposed), parent_part(proposed)),
        )
    } else {
        Seq::<SubtitleMatchV>::empty()
    }
}

/// The result for a video whose name parsed and whose template rendered.
pub open spec fn rendered_result(
    config: ConfigV,
    video: Seq<char>,
    info: MediaInfoV,
    relative: Seq<char>,
    entries: Seq<FileEntry>,
    subfolders: Seq<SubfolderListing>,
) -> ScanResultV {
    let proposed = proposed_location(config, video, relative);
    let st = status_for(info.confidence);
    ScanResultV {
        source_path: video,
        media_info: info,
        proposed_path: proposed,
        subtitles: subtitles_for(config, video, proposed, entries, subfolders),
        status: st.0,
        ambiguity_reason: st.1,
        alternatives: Seq::<MediaInfoV>::empty(),
    }
}

/// The lowercased extension of a path, empty when it has none.
pub open spec fn lower_extension(p: Seq<char>) -> Seq<char> {
    match path_extension(p) {
        Some(e) => lower_text(e),
        None => Seq::<char>::empty(),
    }
}

/// What scanning a file gives once its name is parsed: the template of
/// its media type rendered against the metadata, placed, and its subtitles
/// found; a template failure is the scan's failure.
pub open spec fn scan_parsed_spec(
    config: ConfigV,
    path: Seq<char>,
    info: MediaInfoV,
    entries: Seq<FileEntry>,
    subfolders: Seq<SubfolderListing>,
) -> Result<ScanResultV, MediErrorV> {
    match render_spec(template_for(config, info.media_type), info) {
        Err(e) => Err(e),
        Ok(relative) => Ok(rendered_result(config, path, info, relative, entries, subfolders)),
    }
}

/// What scanning one file gives: the path must exist, be a file and have
/// a video extension; its name is parsed on its own and rendered with the
/// template of its media type.
pub open spec fn scan_file_spec(
    config: ConfigV,
    path: Seq<char>,
    probe: PathProbe,
    entries: Seq<FileEntry>,
    subfolders: Seq<SubfolderListing>,
) -> Result<ScanResultV, MediErrorV> {
    if !probe.exists {
        Err(MediErrorV::ScanPathNotFound { path })
    } else if !probe.is_file {
        Err(MediErrorV::ParseFailed("not a file: "@ + path))
    } else if !is_video_path(path) {
        Err(MediErrorV::ParseFailed("not a video file: ."@ + lower_extension(path)))
    } else {
        let name = name_part(path);
        match map_hunch_spec(hunch_output(name, Seq::<Seq<char>>::empty()), name) {
            Err(e) => Err(e),
            Ok(info) => scan_parsed_spec(config, path, info, entries, subfolders),
        }
    }
}

/// The stem of a path's file name, empty when it has none.
fn path_stem_exec(p: &str) -> (r: String)
    ensures
        r@ == path_stem(p@),
{
    let (_parent, name) = split_path(p);
    let nc = to_chars(name.as_str());
    let is_dotdot = nc.len() == 2 && nc[0] == '.' && nc[1] == '.';
    proof {
        if is_dotdot {
            assert(nc@ =~= seq!['.', '.']);
        }
        if nc@ == seq!['.', '.'] {
            assert(nc@[0] == '.' && nc@[1] == '.');
        }
    }
    if nc.len() == 0 || is_dotdot {
        return String::new();
    }
    let (stem, _ext) = split_file_name(name.as_str());
    stem
}

impl Scanner {
    /// The configuration scans run with.
    pub closed spec fn config_spec(&self) -> ConfigV {
        self.config@
    }

    /// A scanner for this configuration.
    pub fn new(config: Config) -> (r: Scanner)
        ensures
            r.config_spec() == config@,
    {
        Scanner { config, template_engine: TemplateEngine::new() }
    }

    /// The configured template for a media type.
    fn select_template(&self, media_type: &MediaType) -> (r: &str)
        ensures
            r@ == template_for(self.config@, *media_type),
    {
        match media_type {
            MediaType::Movie => self.config.templates.movie.as_str(),
            MediaType::Series => self.config.templates.series.as_str(),
        }
    }

    /// The status a parse confidence gives, with its reason.
    fn confidence_to_status(confidence: &ParseConfidence) -> (r: (ScanStatus, Option<String>))
        ensures
            r.0 == status_for(*confidence).0,
            opt_view(r.1) == status_for(*confidence).1,
    {
        match confidence {
            ParseConfidence::Low => (
                ScanStatus::Ambiguous,
                Some(String::from_str("low confidence parse")),
            ),
            ParseConfidence::Medium => (
                ScanStatus::Ambiguous,
                Some(String::from_str("medium confidence parse")),
            ),
            ParseConfidence::High => (ScanStatus::Okay, None),
        }
    }

    /// The full result for a video whose template rendered.
    fn build_result(
        &self,
        video: &str,
        info: MediaInfo,
        relative: &str,
        listing: &FolderListing,
    ) -> (r: ScanResult)
        ensures
            r@ == rendered_result(
                self.config@,
                video@,
                info@,
                relative@,
                listing.entries@,
                listing.subfolders@,
            ),
    {
        let proposed_path = match &self.config.general.output_dir {
            Some(d) => join_path(d.as_str(), relative),
            None => {
                let (parent, _name) = split_path(video);
                join_path(parent.as_str(), relative)
            },
        };
        let subtitles: Vec<SubtitleMatch> = if self.config.subtitles.enabled {
            let stem = path_stem_exec(proposed_path.as_str());
            let (out_dir, _name) = split_path(proposed_path.as_str());
            let disc = SubtitleDiscovery::new(
                self.config.subtitles.discovery,
                clone_strings(&self.config.subtitles.preferred_languages),
            );
            let subs = disc.discover_for_video(video, stem.as_str(), out_dir.as_str(), listing);
            let ghost expect = subtitles_for(
                self.config@,
                video@,
                proposed_path@,
                listing.entries@,
                listing.subfolders@,
            );
            assert(subs@.map_values(|m: SubtitleMatch| m@) =~= expect);
            subs
        } else {
            let v: Vec<SubtitleMatch> = Vec::new();
            assert(v@.map_values(|m: SubtitleMatch| m@) =~= Seq::<SubtitleMatchV>::empty());
            v
        };
        let (status, ambiguity_reason) = Scanner::confidence_to_status(&info.confidence);
        let alternatives: Vec<MediaInfo> = Vec::new();
        assert(alternatives@.map_values(|m: MediaInfo| m@) =~= Seq::<MediaInfoV>::empty());
        ScanResult {
            source_path: String::from_str(video),
            media_info: info,
            proposed_path,
            subtitles,
            status,
            ambiguity_reason,
            alternatives,
        }
    }

    /// Scans a single file (for the watcher): the path must exist, be a
    /// file and have a video extension. The name is parsed on its own, the
    /// template of its media type rendered, and its subtitles found in
    /// `listing`, the listing of its directory. No conflict detection is
    /// done.
    pub fn scan_file(&self, path: &str, probe: &PathProbe, listing: &FolderListing) -> (r: Result<
        ScanResult,
        MediError,
    >)
        ensures
            match r {
                Ok(res) => scan_file_spec(
                    self.config_spec(),
                    path@,
                    *probe,
                    listing.entries@,
                    listing.subfolders@,
                ) == Ok::<ScanResultV, MediErrorV>(res@),
                Err(e) => scan_file_spec(
                    self.config_spec(),
                    path@,
                    *probe,
                    listing.entries@,
                    listing.subfolders@,
                ) == Err::<ScanResultV, MediErrorV>(e@),
            },
    {
        if !probe.exists {
            return Err(MediError::ScanPathNotFound { path: String::from_str(path) });
        }
        if !probe.is_file {
            return Err(MediError::ParseFailed(cat("not a file: ", path)));
        }
        if !is_video_file(path) {
            let ext = match extension_of(path) {
                Some(e) => str_to_lowercase(e.as_str()),
                None => String::new(),
            };
            return Err(MediError::ParseFailed(cat("not a video file: .", ext.as_str())));
        }
        let (_parent, name) = split_path(path);
        match parse_filename(name.as_str()) {
            Ok(info) => self.scan_parsed(path, info, listing),
            Err(e) => Err(e),
        }
    }

    /// Scans a file whose name has been parsed into `info`: the template of
    /// its media type is rendered, the result placed (under the output
    /// directory, or next to the file) and its subtitles found in
    /// `listing`, the listing of its directory.
    pub fn scan_parsed(&self, path: &str, info: MediaInfo, listing: &FolderListing) -> (r: Result<
        ScanResult,
        MediError,
    >)
        ensures
            match r {
                Ok(res) => scan_parsed_spec(
                    self.config_spec(),
                    path@,
                    info@,
                    listing.entries@,
                    listing.subfolders@,
                ) == Ok::<ScanResultV, MediErrorV>(res@),
                Err(e) => scan_parsed_spec(
                    self.config_spec(),
                    path@,
                    info@,
                    listing.entries@,
                    listing.subfolders@,
                ) == Err::<ScanResultV, MediErrorV>(e@),
            },
    {
        let template = self.select_template(&info.media_type);
        match self.template_engine.render(template, &info) {
            Ok(relative) => Ok(self.build_result(path, info, relative.as_str(), listing)),
            Err(e) => Err(e),
        }
    }
}

// ---------------------------------------------------------------------------
// Folder scans
// ---------------------------------------------------------------------------

/// An entry of a recursive walk below the scanned folder (symbolic links
/// not followed).
#[derive(Debug, Clone)]
pub struct WalkedEntry {
    /// The entry's path.
    pub path: String,
    /// Whether it is a regular file.
    pub is_file: bool,
}

/// The listing of one directory below the scanned folder.
#[derive(Debug, Clone)]
pub struct DirListing {
    /// The directory.
    pub dir: String,
    /// What it holds.
    pub listing: FolderListing,
}

/// The video files of a walk, in walk order.
pub open spec fn video_paths(walked: Seq<WalkedEntry>) -> Seq<Seq<char>>
    decreases walked.len(),
{
    if walked.len() == 0 {
        Seq::<Seq<char>>::empty()
    } else {
        let prev = video_paths(walked.drop_last());
        let e = walked.last();
        if e.is_file && is_video_path(e.path@) {
            prev.push(e.path@)
        } else {
            prev
        }
    }
}

/// The directories holding the videos, each once, in order of first
/// appearance.
pub open spec fn distinct_dirs(videos: Seq<Seq<char>>) -> Seq<Seq<char>>
    decreases videos.len(),
{
    if videos.len() == 0 {
        Seq::<Seq<char>>::empty()
    } else {
        let prev = distinct_dirs(videos.drop_last());
        let d = parent_part(videos.last());
        if prev.contains(d) {
            prev
        } else {
            prev.push(d)
        }
    }
}

/// The videos in one directory, in order.
pub open spec fn videos_in(videos: Seq<Seq<char>>, dir: Seq<char>) -> Seq<Seq<char>>
    decreases videos.len(),
{
    if videos.len() == 0 {
        Seq::<Seq<char>>::empty()
    } else {
        let prev = videos_in(videos.drop_last(), dir);
        if parent_part(videos.last()) == dir {
            prev.push(videos.last())
        } else {
            prev
        }
    }
}

/// The listing of a directory: the first one given for it, else empty.
pub open spec fn listing_for(listings: Seq<DirListing>, dir: Seq<char>) -> (
    Seq<FileEntry>,
    Seq<SubfolderListing>,
)
    decreases listings.len(),
{
    if listings.len() == 0 {
        (Seq::<FileEntry>::empty(), Seq::<SubfolderListing>::empty())
    } else if listings[0].dir@ == dir {
        (listings[0].listing.entries@, listings[0].listing.subfolders@)
    } else {
        listing_for(listings.drop_first(), dir)
    }
}

/// The metadata recorded for a file whose name could not be parsed.
pub open spec fn unparsed_info() -> MediaInfoV {
    MediaInfoV {
        title: Seq::<char>::empty(),
        media_type: MediaType::Movie,
        year: None,
        season: None,
        episodes: Seq::<u16>::empty(),
        resolution: None,
        video_codec: None,
        audio_codec: None,
        source: None,
        release_group: None,
        container: Seq::<char>::empty(),
        language: None,
        confidence: ParseConfidence::Low,
    }
}

/// A result with status `Error`.
pub open spec fn error_result(video: Seq<char>, info: MediaInfoV, reason: Seq<char>) -> ScanResultV {
    ScanResultV {
        source_path: video,
        media_info: info,
        proposed_path: Seq::<char>::empty(),
        subtitles: Seq::<SubtitleMatchV>::empty(),
        status: ScanStatus::Error,
        ambiguity_reason: Some(reason),
        alternatives: Seq::<MediaInfoV>::empty(),
    }
}

/// The result for one video of a folder scan once its name is parsed: a
/// parse or render failure gives an `Error` entry instead of failing the
/// scan.
pub open spec fn parsed_entry_result(
    config: ConfigV,
    video: Seq<char>,
    parsed: Result<MediaInfoV, MediErrorV>,
    entries: Seq<FileEntry>,
    subfolders: Seq<SubfolderListing>,
) -> ScanResultV {
    match parsed {
        Err(e) => error_result(video, unparsed_info(), "parse error: "@ + error_message(e)),
        Ok(info) => match render_spec(template_for(config, info.media_type), info) {
            Err(e) => error_result(video, info, "template error: "@ + error_message(e)),
            Ok(relative) => rendered_result(config, video, info, relative, entries, subfolders),
        },
    }
}

/// The result for one video of a folder scan: its name is parsed with
/// the names of the videos in its directory; a parse or render failure
/// gives an `Error` entry instead of failing the scan.
pub open spec fn folder_entry_result(
    config: ConfigV,
    video: Seq<char>,
    siblings: Seq<Seq<char>>,
    entries: Seq<FileEntry>,
    subfolders: Seq<SubfolderListing>,
) -> ScanResultV {
    let name = name_part(video);
    parsed_entry_result(config, video, map_hunch_spec(hunch_output(name, siblings), name), entries, subfolders)
}

/// The results for the videos of one directory.
pub open spec fn dir_results(
    config: ConfigV,
    members: Seq<Seq<char>>,
    entries: Seq<FileEntry>,
    subfolders: Seq<SubfolderListing>,
) -> Seq<ScanResultV> {
    let siblings = members.map_values(|v: Seq<char>| name_part(v));
    members.map_values(|v: Seq<char>| folder_entry_result(config, v, siblings, entries, subfolders))
}

/// The results for all videos, directory by directory.
pub open spec fn all_results(
    config: ConfigV,
    dirs: Seq<Seq<char>>,
    videos: Seq<Seq<char>>,
    listings: Seq<DirListing>,
) -> Seq<ScanResultV>
    decreases dirs.len(),
{
    if dirs.len() == 0 {
        Seq::<ScanResultV>::empty()
    } else {
        let d = dirs.last();
        let l = listing_for(listings, d);
        all_results(config, dirs.drop_last(), videos, listings) + dir_results(
            config,
            videos_in(videos, d),
            l.0,
            l.1,
        )
    }
}

/// Another result that is not an error proposes the same path.
pub open spec fn has_duplicate(rs: Seq<ScanResultV>, i: int) -> bool {
    exists|j: int|
        0 <= j < rs.len() && j != i && (#[trigger] rs[j]).status != ScanStatus::Error
            && rs[j].proposed_path == rs[i].proposed_path
}

/// A result marked as a conflict.
pub open spec fn as_conflict(r: ScanResultV, reason: Seq<char>) -> ScanResultV {
    ScanResultV {
        source_path: r.source_path,
        media_info: r.media_info,
        proposed_path: r.proposed_path,
        subtitles: r.subtitles,
        status: ScanStatus::Conflict,
        ambiguity_reason: Some(reason),
        alternatives: r.alternatives,
    }
}

/// The `i`-th result after conflict detection: a result that is not an
/// error conflicts when another one proposes the same path, or else when
/// its proposed path exists and is not its own source.
pub open spec fn conflict_checked(rs: Seq<ScanResultV>, i: int, existing: Seq<String>) -> ScanResultV {
    let r = rs[i];
    if r.status == ScanStatus::Error {
        r
    } else if has_duplicate(rs, i) {
        as_conflict(r, "duplicate target path: "@ + r.proposed_path)
    } else if crate::renamer::exists_in(existing, r.proposed_path) && r.proposed_path
        != r.source_path {
        as_conflict(r, "target file already exists: "@ + r.proposed_path)
    } else {
        r
    }
}

/// All results after conflict detection.
pub open spec fn with_conflicts(rs: Seq<ScanResultV>, existing: Seq<String>) -> Seq<ScanResultV> {
    Seq::new(rs.len(), |i: int| conflict_checked(rs, i, existing))
}

/// What a folder scan gives: the folder must exist and be a directory;
/// every video file below it gets a result, directory by directory, and
/// conflicts between them are flagged.
pub open spec fn scan_folder_spec(
    config: ConfigV,
    path: Seq<char>,
    probe: PathProbe,
    walked: Seq<WalkedEntry>,
    listings: Seq<DirListing>,
    existing: Seq<String>,
) -> Result<Seq<ScanResultV>, MediErrorV> {
    if !probe.exists {
        Err(MediErrorV::ScanPathNotFound { path })
    } else if !probe.is_dir {
        Err(MediErrorV::ScanPathNotDirectory { path })
    } else {
        let videos = video_paths(walked);
        Ok(with_conflicts(all_results(config, distinct_dirs(videos), videos, listings), existing))
    }
}

/// The views of scan results.
pub open spec fn results_view(v: Seq<ScanResult>) -> Seq<ScanResultV> {
    v.map_values(|r: ScanResult| r@)
}

/// The video files of a walk.
fn collect_videos(walked: &Vec<WalkedEntry>) -> (r: Vec<String>)
    ensures
        strings_view(r@) == video_paths(walked@),
{
    let mut r: Vec<String> = Vec::new();
    let mut i: usize = 0;
    while i < walked.len()
        invariant
            i <= walked@.len(),
            strings_view(r@) == video_paths(walked@.subrange(0, i as int)),
        decreases walked.len() - i,
    {
        assert(walked@.subrange(0, i + 1).drop_last() =~= walked@.subrange(0, i as int));
        let e = &walked[i];
        if e.is_file && is_video_file(e.path.as_str()) {
            r.push(e.path.clone());
            assert(strings_view(r@) =~= video_paths(walked@.subrange(0, i + 1)));
        }
        i = i + 1;
    }
    assert(walked@.subrange(0, walked@.len() as int) =~= walked@);
    r
}

/// The distinct directories of the videos.
fn collect_dirs(videos: &Vec<String>) -> (r: Vec<String>)
    ensures
        strings_view(r@) == distinct_dirs(strings_view(videos@)),
{
    let ghost vs = strings_view(videos@);
    let mut r: Vec<String> = Vec::new();
    let mut i: usize = 0;
    while i < videos.len()
        invariant
            vs == strings_view(videos@),
            i <= videos@.len(),
            strings_view(r@) == distinct_dirs(vs.subrange(0, i as int)),
        decreases videos.len() - i,
    {
        assert(vs.subrange(0, i + 1).drop_last() =~= vs.subrange(0, i as int));
        assert(vs.subrange(0, i + 1).last() == videos@[i as int]@);
        let (d, _name) = split_path(videos[i].as_str());
        if !crate::renamer::strings_contain(&r, d.as_str()) {
            r.push(d);
            assert(strings_view(r@) =~= distinct_dirs(vs.subrange(0, i + 1)));
        }
        i = i + 1;
    }
    assert(vs.subrange(0, vs.len() as int) =~= vs);
    r
}

/// The videos in one directory.
fn members_of(videos: &Vec<String>, dir: &str) -> (r: Vec<String>)
    ensures
        strings_view(r@) == videos_in(strings_view(videos@), dir@),
{
    let ghost vs = strings_view(videos@);
    let mut r: Vec<String> = Vec::new();
    let mut i: usize = 0;
    while i < videos.len()
        invariant
            vs == strings_view(videos@),
            i <= videos@.len(),
            strings_view(r@) == videos_in(vs.subrange(0, i as int), dir@),
        decreases videos.len() - i,
    {
        assert(vs.subrange(0, i + 1).drop_last() =~= vs.subrange(0, i as int));
        assert(vs.subrange(0, i + 1).last() == videos@[i as int]@);
        let (d, _name) = split_path(videos[i].as_str());
        let dc = to_chars(d.as_str());
        if crate::text::eq_str(&dc, dir) {
            r.push(videos[i].clone());
            assert(strings_view(r@) =~= videos_in(vs.subrange(0, i + 1), dir@));
        }
        i = i + 1;
    }
    assert(vs.subrange(0, vs.len() as int) =~= vs);
    r
}

/// The index of the listing of a directory, if one is given.
fn find_listing(listings: &Vec<DirListing>, dir: &str) -> (r: Option<usize>)
    ensures
        match r {
            Some(k) => k < listings@.len() && listing_for(listings@, dir@) == (
                listings@[k as int].listing.entries@,
                listings@[k as int].listing.subfolders@,
            ),
            None => listing_for(listings@, dir@) == (
                Seq::<FileEntry>::empty(),
                Seq::<SubfolderListing>::empty(),
            ),
        },
{
    let mut i: usize = 0;
    assert(listings@.subrange(0, listings@.len() as int) =~= listings@);
    while i < listings.len()
        invariant
            i <= listings@.len(),
            listing_for(listings@, dir@) == listing_for(
                listings@.subrange(i as int, listings@.len() as int),
                dir@,
            ),
        decreases listings.len() - i,
    {
        let ghost rest = listings@.subrange(i as int, listings@.len() as int);
        assert(rest.drop_first() =~= listings@.subrange(i + 1, listings@.len() as int));
        assert(rest[0] == listings@[i as int]);
        let dc = to_chars(listings[i].dir.as_str());
        if crate::text::eq_str(&dc, dir) {
            return Some(i);
        }
        i = i + 1;
    }
    None
}

/// The result recorded when a name could not be parsed or rendered.
fn error_entry(video: &str, info: MediaInfo, reason: String) -> (r: ScanResult)
    ensures
        r@ == error_result(video@, info@, reason@),
{
    let subtitles: Vec<SubtitleMatch> = Vec::new();
    let alternatives: Vec<MediaInfo> = Vec::new();
    assert(subtitles@.map_values(|m: SubtitleMatch| m@) =~= Seq::<SubtitleMatchV>::empty());
    assert(alternatives@.map_values(|m: MediaInfo| m@) =~= Seq::<MediaInfoV>::empty());
    ScanResult {
        source_path: String::from_str(video),
        media_info: info,
        proposed_path: String::new(),
        subtitles,
        status: ScanStatus::Error,
        ambiguity_reason: Some(reason),
        alternatives,
    }
}

impl Scanner {
    /// The result for one video of a folder scan.
    fn folder_entry(&self, video: &str, siblings: &[&str], listing: &FolderListing) -> (r:
        ScanResult)
        ensures
            r@ == folder_entry_result(
                self.config@,
                video@,
                strs_view(siblings@),
                listing.entries@,
                listing.subfolders@,
            ),
    {
        let (_parent, name) = split_path(video);
        let parsed = parse_with_context(name.as_str(), siblings);
        self.folder_result(video, parsed, listing)
    }

    /// The result for one video of a folder scan once its name is parsed:
    /// a parse failure or a template failure gives an `Error` entry with
    /// the reason.
    pub fn folder_result(&self, video: &str, parsed: Result<MediaInfo, MediError>, listing: &FolderListing) -> (r:
        ScanResult)
        ensures
            r@ == parsed_entry_result(
                self.config_spec(),
                video@,
                info_result_view(parsed),
                listing.entries@,
                listing.subfolders@,
            ),
    {
        let info = match parsed {
            Ok(i) => i,
            Err(e) => {
                let mut info = MediaInfo::default();
                info.confidence = ParseConfidence::Low;
                return error_entry(video, info, cat("parse error: ", e.message().as_str()));
            },
        };
        let template = self.select_template(&info.media_type);
        match self.template_engine.render(template, &info) {
            Ok(relative) => self.build_result(video, info, relative.as_str(), listing),
            Err(e) => error_entry(video, info, cat("template error: ", e.message().as_str())),
        }
    }

    /// Appends the results for the videos of one directory.
    fn scan_dir(&self, members: &Vec<String>, listing: &FolderListing, out: &mut Vec<ScanResult>)
        ensures
            results_view(final(out)@) == results_view(old(out)@) + dir_results(
                self.config@,
                strings_view(members@),
                listing.entries@,
                listing.subfolders@,
            ),
    {
        let ghost ms = strings_view(members@);
        let mut names: Vec<String> = Vec::new();
        let mut i: usize = 0;
        while i < members.len()
            invariant
                ms == strings_view(members@),
                i <= members@.len(),
                names@.len() == i,
                forall|k: int| 0 <= k < i ==> (#[trigger] names@[k])@ == name_part(ms[k]),
            decreases members.len() - i,
        {
            let (_p, n) = split_path(members[i].as_str());
            names.push(n);
            i = i + 1;
        }
        let mut refs: Vec<&str> = Vec::new();
        let mut j: usize = 0;
        while j < names.len()
            invariant
                j <= names@.len(),
                refs@.len() == j,
                forall|k: int| 0 <= k < j ==> (#[trigger] refs@[k])@ == names@[k]@,
            decreases names.len() - j,
        {
            refs.push(names[j].as_str());
            j = j + 1;
        }
        let ghost siblings = ms.map_values(|v: Seq<char>| name_part(v));
        assert(strs_view(refs@) =~= siblings);
        let ghost start = results_view(out@);
        let ghost expect = dir_results(self.config@, ms, listing.entries@, listing.subfolders@);
        let mut m: usize = 0;
        while m < members.len()
            invariant
                ms == strings_view(members@),
                strs_view(refs@) == siblings,
                siblings == ms.map_values(|v: Seq<char>| name_part(v)),
                expect == dir_results(self.config@, ms, listing.entries@, listing.subfolders@),
                m <= members@.len(),
                results_view(out@) == start + expect.subrange(0, m as int),
            decreases members.len() - m,
        {
            let r = self.folder_entry(members[m].as_str(), refs.as_slice(), listing);
            let ghost before = out@;
            out.push(r);
            assert(expect[m as int] == folder_entry_result(
                self.config@,
                ms[m as int],
                siblings,
                listing.entries@,
                listing.subfolders@,
            ));
            assert(results_view(out@) =~= results_view(before).push(r@));
            assert(expect.subrange(0, m + 1) =~= expect.subrange(0, m as int).push(expect[m as int]));
            m = m + 1;
        }
        assert(expect.subrange(0, members@.len() as int) =~= expect);
    }

    /// Marks conflicts: results (other than errors) proposing the same
    /// path, and results whose proposed path already exists and is not
    /// their own source.
    fn detect_conflicts(results: Vec<ScanResult>, existing: &Vec<String>) -> (r: Vec<ScanResult>)
        ensures
            results_view(r@) == with_conflicts(results_view(results@), existing@),
    {
        let ghost rs = results_view(results@);
        let n = results.len();
        let mut reasons: Vec<Option<String>> = Vec::new();
        let mut i: usize = 0;
        while i < n
            invariant
                n == results@.len(),
                rs == results_view(results@),
                i <= n,
                reasons@.len() == i,
                forall|k: int|
                    0 <= k < i ==> (match #[trigger] reasons@[k] {
                        Some(reason) => conflict_checked(rs, k, existing@) == as_conflict(
                            rs[k],
                            reason@,
                        ),
                        None => conflict_checked(rs, k, existing@) == rs[k],
                    }),
            decreases n - i,
        {
            let ri = &results[i];
            assert(rs[i as int] == ri@);
            let reason: Option<String> = if ri.status == ScanStatus::Error {
                None
            } else {
                let mut dup = false;
                let mut j: usize = 0;
                while j < n
                    invariant
                        n == results@.len(),
                        rs == results_view(results@),
                        i < n,
                        j <= n,
                        rs[i as int] == results@[i as int]@,
                        dup == (exists|q: int|
                            0 <= q < j && q != i && (#[trigger] rs[q]).status != ScanStatus::Error
                                && rs[q].proposed_path == rs[i as int].proposed_path),
                    decreases n - j,
                {
                    if j != i && results[j].status != ScanStatus::Error {
                        let a = to_chars(results[j].proposed_path.as_str());
                        let b = to_chars(results[i].proposed_path.as_str());
                        if crate::text::chars_eq(&a, &b) {
                            dup = true;
                            assert(rs[j as int] == results@[j as int]@);
                        }
                    }
                    proof {
                        if !dup {
                            assert forall|q: int|
                                0 <= q < j + 1 && q != i && (#[trigger] rs[q]).status
                                    != ScanStatus::Error implies rs[q].proposed_path
                                != rs[i as int].proposed_path by {
                                if q == j {
                                    assert(rs[j as int] == results@[j as int]@);
                                }
                            }
                        }
                    }
                    j = j + 1;
                }
                let p = results[i].proposed_path.as_str();
                if dup {
                    Some(cat("duplicate target path: ", p))
                } else {
                    let pc = to_chars(p);
                    let same_as_source = crate::text::eq_str(&pc, results[i].source_path.as_str());
                    if crate::renamer::strings_contain(existing, p) && !same_as_source {
                        Some(cat("target file already exists: ", p))
                    } else {
                        None
                    }
                }
            };
            reasons.push(reason);
            i = i + 1;
        }
        let mut rest = results;
        let mut out: Vec<ScanResult> = Vec::new();
        let mut k: usize = 0;
        while k < n
            invariant
                n == rs.len(),
                reasons@.len() == n,
                k <= n,
                rest@.len() == n - k,
                forall|q: int| 0 <= q < n - k ==> (#[trigger] rest@[q])@ == rs[q + k],
                forall|q: int|
                    0 <= q < n ==> (match #[trigger] reasons@[q] {
                        Some(reason) => conflict_checked(rs, q, existing@) == as_conflict(
                            rs[q],
                            reason@,
                        ),
                        None => conflict_checked(rs, q, existing@) == rs[q],
                    }),
                out@.len() == k,
                forall|q: int|
                    0 <= q < k ==> (#[trigger] out@[q])@ == conflict_checked(rs, q, existing@),
            decreases n - k,
        {
            let mut item = rest.remove(0);
            assert(item@ == rs[k as int]);
            match &reasons[k] {
                Some(reason) => {
                    item.status = ScanStatus::Conflict;
                    item.ambiguity_reason = Some(reason.clone());
                },
                None => {},
            }
            out.push(item);
            k = k + 1;
        }
        assert(results_view(out@) =~= with_conflicts(rs, existing@));
        out
    }

    /// Scans a folder recursively: `probe` says what `path` is, `walked`
    /// is the walk below it, `listings` the listings of the directories
    /// that hold videos, `existing` the proposed paths that exist.
    /// Every video file gets a result (parse and render failures become
    /// `Error` entries), directory by directory in order of first
    /// appearance, and conflicts are flagged.
    pub fn scan_folder(
        &self,
        path: &str,
        probe: &PathProbe,
        walked: &Vec<WalkedEntry>,
        listings: &Vec<DirListing>,
        existing: &Vec<String>,
    ) -> (r: Result<Vec<ScanResult>, MediError>)
        ensures
            match r {
                Ok(v) => scan_folder_spec(
                    self.config_spec(),
                    path@,
                    *probe,
                    walked@,
                    listings@,
                    existing@,
                ) == Ok::<Seq<ScanResultV>, MediErrorV>(results_view(v@)),
                Err(e) => scan_folder_spec(
                    self.config_spec(),
                    path@,
                    *probe,
                    walked@,
                    listings@,
                    existing@,
                ) == Err::<Seq<ScanResultV>, MediErrorV>(e@),
            },
    {
        if !probe.exists {
            return Err(MediError::ScanPathNotFound { path: String::from_str(path) });
        }
        if !probe.is_dir {
            return Err(MediError::ScanPathNotDirectory { path: String::from_str(path) });
        }
        let videos = collect_videos(walked);
        let dirs = collect_dirs(&videos);
        let ghost vs = strings_view(videos@);
        let ghost ds = strings_view(dirs@);
        let empty = FolderListing { entries: Vec::new(), subfolders: Vec::new() };
        let mut results: Vec<ScanResult> = Vec::new();
        let mut d: usize = 0;
        while d < dirs.len()
            invariant
                vs == strings_view(videos@),
                ds == strings_view(dirs@),
                d <= dirs@.len(),
                empty.entries@ == Seq::<FileEntry>::empty(),
                empty.subfolders@ == Seq::<SubfolderListing>::empty(),
                results_view(results@) == all_results(
                    self.config@,
                    ds.subrange(0, d as int),
                    vs,
                    listings@,
                ),
            decreases dirs.len() - d,
        {
            assert(ds.subrange(0, d + 1).drop_last() =~= ds.subrange(0, d as int));
            assert(ds.subrange(0, d + 1).last() == dirs@[d as int]@);
            let members = members_of(&videos, dirs[d].as_str());
            match find_listing(listings, dirs[d].as_str()) {
                Some(k) => self.scan_dir(&members, &listings[k].listing, &mut results),
                None => self.scan_dir(&members, &empty, &mut results),
            }
            d = d + 1;
        }
        assert(ds.subrange(0, ds.len() as int) =~= ds);
        Ok(Scanner::detect_conflicts(results, existing))
    }

    /// The results that match every active criterion of the filter, in
    /// order.
    pub fn filter_results<'a>(results: &'a [ScanResult], filter: &ScanFilter) -> (r: Vec<
        &'a ScanResult,
    >)
        ensures
            r@.map_values(|x: &ScanResult| *x) == results@.filter(
                |x: ScanResult|
                    filter_accepts(*filter, x.media_info.media_type, x.status, x.media_info.title@),
            ),
    {
        let ghost pred = |x: ScanResult|
            filter_accepts(*filter, x.media_info.media_type, x.status, x.media_info.title@);
        let mut r: Vec<&'a ScanResult> = Vec::new();
        let mut i: usize = 0;
        while i < results.len()
            invariant
                i <= results@.len(),
                pred == (|x: ScanResult|
                    filter_accepts(*filter, x.media_info.media_type, x.status, x.media_info.title@)),
                r@.map_values(|x: &ScanResult| *x) == results@.subrange(0, i as int).filter(pred),
            decreases results.len() - i,
        {
            let ghost before = results@.subrange(0, i as int);
            assert(results@.subrange(0, i + 1).drop_last() =~= before);
            proof {
                reveal(Seq::filter);
                assert(results@.subrange(0, i + 1).last() == results@[i as int]);
            }
            if filter.matches(&results[i]) {
                r.push(&results[i]);
            }
            assert(r@.map_values(|x: &ScanResult| *x) =~= results@.subrange(0, i + 1).filter(pred));
            i = i + 1;
        }
        assert(results@.subrange(0, results@.len() as int) =~= results@);
        r
    }
}

// ---------------------------------------------------------------------------
// Laws
// ---------------------------------------------------------------------------

/// After conflict detection, no two results that are neither errors nor
/// conflicts propose the same path, and no such result proposes an existing
/// path other than its own source; errors are left as they were, and
/// nothing but status and reason ever changes.
pub proof fn law_conflicts_flagged(rs: Seq<ScanResultV>, existing: Seq<String>)
    ensures
        ({
            let out = with_conflicts(rs, existing);
            &&& out.len() == rs.len()
            &&& forall|i: int, j: int|
                0 <= i < out.len() && 0 <= j < out.len() && i != j && (#[trigger] out[i]).status
                    != ScanStatus::Error && out[i].status != ScanStatus::Conflict && (
                #[trigger] out[j]).status != ScanStatus::Error && out[j].status
                    != ScanStatus::Conflict ==> out[i].proposed_path != out[j].proposed_path
            &&& forall|i: int|
                0 <= i < out.len() && (#[trigger] out[i]).status != ScanStatus::Error
                    && out[i].status != ScanStatus::Conflict && crate::renamer::exists_in(
                    existing,
                    out[i].proposed_path,
                ) ==> out[i].proposed_path == out[i].source_path
            &&& forall|i: int|
                0 <= i < out.len() ==> (rs[i].status == ScanStatus::Error ==> #[trigger] out[i]
                    == rs[i]) && out[i].source_path == rs[i].source_path && out[i].proposed_path
                    == rs[i].proposed_path && out[i].media_info == rs[i].media_info
                    && out[i].subtitles == rs[i].subtitles
        }),
{
    let out = with_conflicts(rs, existing);
    assert forall|i: int, j: int|
        0 <= i < out.len() && 0 <= j < out.len() && i != j && (#[trigger] out[i]).status
            != ScanStatus::Error && out[i].status != ScanStatus::Conflict && (
        #[trigger] out[j]).status != ScanStatus::Error && out[j].status != ScanStatus::Conflict
            implies out[i].proposed_path != out[j].proposed_path by {
        assert(out[i] == conflict_checked(rs, i, existing));
        assert(out[j] == conflict_checked(rs, j, existing));
        if rs[i].proposed_path == rs[j].proposed_path {
            assert(rs[j].status != ScanStatus::Error);
            assert(has_duplicate(rs, i));
        }
    }
}

/// Conflict detection marks exactly the real conflicts. A result that is
/// not an error is marked a conflict with a duplicate reason when another
/// result that is not an error proposes the same path. Otherwise it is
/// marked for an existing target exactly when its proposed path exists and
/// is not its own source (a file already where it belongs is no conflict),
/// and is left as it was when not marked.
pub proof fn law_conflicts_exactly(rs: Seq<ScanResultV>, existing: Seq<String>, i: int)
    requires
        0 <= i < rs.len(),
        rs[i].status != ScanStatus::Error,
    ensures
        ({
            let out = with_conflicts(rs, existing);
            let p = rs[i].proposed_path;
            let dup = exists|j: int|
                0 <= j < rs.len() && j != i && (#[trigger] rs[j]).status != ScanStatus::Error
                    && rs[j].proposed_path == p;
            &&& dup ==> out[i].status == ScanStatus::Conflict && out[i].ambiguity_reason == Some(
                "duplicate target path: "@ + p,
            )
            &&& (!dup && strings_view(existing).contains(p) && p != rs[i].source_path) ==> out[i].status
                == ScanStatus::Conflict && out[i].ambiguity_reason == Some(
                "target file already exists: "@ + p,
            )
            &&& (!dup && (!strings_view(existing).contains(p) || p == rs[i].source_path)) ==> out[i]
                == rs[i]
        }),
{
    let out = with_conflicts(rs, existing);
    assert(out[i] == conflict_checked(rs, i, existing));
}

} // verus!
