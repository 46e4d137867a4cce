use mediarr_core::commands::{
    plan_from_entries, preview_proposed_path, scan_events, CommandError, RenameEntry, ScanEvent,
};
use mediarr_core::config::{check_config_value, Config, GeneralConfig};
use mediarr_core::error::MediError;
use mediarr_core::history::{
    check_undo_eligible, ineligible_error, undo_order, undo_result, undo_step, DestSize, UndoCheck, UndoOutcome, UndoProbe,
};
use mediarr_core::output::OutputFormatter;
use mediarr_core::scanner::{DirListing, PathProbe, Scanner, WalkedEntry};
use mediarr_core::subtitle::{FileEntry, FolderListing};
use mediarr_core::types::{
    MediaInfo, MediaType, ParseConfidence, RenameRecord, RenameResult, ScanFilter, ScanStatus,
    WatcherAction, WatcherSettings,
};
use mediarr_core::watcher::{
    admit_path, after_auto_run, event_filename, queued_event, rename_event, scan_failed_event, target_paths,
    watch_plan, DedupCache, WatchEventKind,
};

const A_DIR: PathProbe = PathProbe { exists: true, is_file: false, is_dir: true };
const A_FILE: PathProbe = PathProbe { exists: true, is_file: true, is_dir: false };

fn config_with_output(output_dir: &str) -> Config {
    let mut config = Config::default();
    config.general.output_dir = Some(output_dir.to_string());
    config
}

fn walk(files: &[&str]) -> Vec<WalkedEntry> {
    files.iter().map(|f| WalkedEntry { path: f.to_string(), is_file: true }).collect()
}

fn file_entries(names: &[&str]) -> Vec<FileEntry> {
    names.iter().map(|n| FileEntry { name: n.to_string(), is_file: true, is_dir: false }).collect()
}

// ---------------------------------------------------------------------------
// Folder scans
// ---------------------------------------------------------------------------

#[test]
fn scan_finds_video_files() {
    let scanner = Scanner::new(config_with_output("/out"));
    let walked = walk(&["/src/Movie.One.2020.mkv", "/src/Movie.Two.2021.mp4"]);
    let results = scanner.scan_folder("/src", &A_DIR, &walked, &vec![], &vec![]).unwrap();
    assert_eq!(results.len(), 2, "should find 2 video files");
}

#[test]
fn scan_skips_non_video_files() {
    let scanner = Scanner::new(config_with_output("/out"));
    let mut walked = walk(&["/src/Movie.2020.mkv", "/src/info.txt", "/src/cover.nfo", "/src/poster.jpg"]);
    walked.push(WalkedEntry { path: "/src/sub.mkv".to_string(), is_file: false });
    let results = scanner.scan_folder("/src", &A_DIR, &walked, &vec![], &vec![]).unwrap();
    assert_eq!(results.len(), 1, "should only find 1 video file");
}

#[test]
fn scan_result_has_media_info_and_proposed_path() {
    let scanner = Scanner::new(config_with_output("/out"));
    let walked = walk(&["/src/Inception.2010.1080p.BluRay.x264-GROUP.mkv"]);
    let results = scanner.scan_folder("/src", &A_DIR, &walked, &vec![], &vec![]).unwrap();
    assert_eq!(results.len(), 1);
    let r = &results[0];
    assert!(r.media_info.title.contains("Inception"), "got: {}", r.media_info.title);
    assert!(r.proposed_path.starts_with("/out/"), "got: {}", r.proposed_path);
    assert!(r.proposed_path.ends_with(".mkv"), "got: {}", r.proposed_path);
}

#[test]
fn scan_detects_duplicate_target_conflict() {
    let scanner = Scanner::new(config_with_output("/out"));
    let walked = walk(&[
        "/src/a/Inception.2010.1080p.BluRay.x264-GROUP.mkv",
        "/src/b/Inception.2010.1080p.BluRay.x264-GROUP.mkv",
    ]);
    let results = scanner.scan_folder("/src", &A_DIR, &walked, &vec![], &vec![]).unwrap();
    let conflicts: Vec<_> = results.iter().filter(|r| r.status == ScanStatus::Conflict).collect();
    assert_eq!(conflicts.len(), 2, "both duplicate entries should be marked Conflict");
    assert!(conflicts[0].ambiguity_reason.as_ref().unwrap().contains("duplicate target path"));
}

#[test]
fn scan_detects_existing_file_conflict() {
    let scanner = Scanner::new(config_with_output("/out"));
    let walked = walk(&["/src/Inception.2010.1080p.BluRay.x264-GROUP.mkv"]);
    let first = scanner.scan_folder("/src", &A_DIR, &walked, &vec![], &vec![]).unwrap();
    assert_ne!(first[0].status, ScanStatus::Conflict);
    let target = first[0].proposed_path.clone();
    let existing = vec![target.clone()];
    let results = scanner.scan_folder("/src", &A_DIR, &walked, &vec![], &existing).unwrap();
    assert_eq!(results[0].status, ScanStatus::Conflict);
    assert_eq!(
        results[0].ambiguity_reason.clone(),
        Some(format!("target file already exists: {target}"))
    );
}

#[test]
fn scan_groups_by_directory_in_first_appearance_order() {
    let scanner = Scanner::new(config_with_output("/out"));
    let walked = walk(&["/src/b/Movie.2021.mkv", "/src/a/Film.2019.mkv", "/src/b/Other.2020.mkv"]);
    let results = scanner.scan_folder("/src", &A_DIR, &walked, &vec![], &vec![]).unwrap();
    let sources: Vec<&str> = results.iter().map(|r| r.source_path.as_str()).collect();
    assert_eq!(
        sources,
        vec!["/src/b/Movie.2021.mkv", "/src/b/Other.2020.mkv", "/src/a/Film.2019.mkv"]
    );
}

#[test]
fn scan_discovers_subtitles_for_video() {
    let scanner = Scanner::new(config_with_output("/out"));
    let walked = walk(&["/src/Inception.2010.1080p.BluRay.x264-GROUP.mkv"]);
    let listings = vec![DirListing {
        dir: "/src".to_string(),
        listing: FolderListing {
            entries: file_entries(&[
                "Inception.2010.1080p.BluRay.x264-GROUP.mkv",
                "Inception.2010.1080p.BluRay.x264-GROUP.en.srt",
            ]),
            subfolders: vec![],
        },
    }];
    let results = scanner.scan_folder("/src", &A_DIR, &walked, &listings, &vec![]).unwrap();
    assert_eq!(results[0].subtitles.len(), 1);
    let sub = &results[0].subtitles[0];
    assert_eq!(sub.language, "en");
    assert_eq!(sub.source_path, "/src/Inception.2010.1080p.BluRay.x264-GROUP.en.srt");
    let video = std::path::Path::new(&results[0].proposed_path);
    let subtitle = std::path::Path::new(&sub.proposed_path);
    assert_eq!(subtitle.parent(), video.parent());
    let stem = video.file_stem().unwrap().to_str().unwrap();
    assert_eq!(subtitle.file_name().unwrap().to_str().unwrap(), format!("{stem}.en.srt"));
}

#[test]
fn scan_with_subtitles_disabled_discovers_no_subs() {
    let mut config = config_with_output("/out");
    config.subtitles.enabled = false;
    let scanner = Scanner::new(config);
    let walked = walk(&["/src/Inception.2010.mkv"]);
    let listings = vec![DirListing {
        dir: "/src".to_string(),
        listing: FolderListing {
            entries: file_entries(&["Inception.2010.mkv", "Inception.2010.en.srt"]),
            subfolders: vec![],
        },
    }];
    let results = scanner.scan_folder("/src", &A_DIR, &walked, &listings, &vec![]).unwrap();
    assert!(results[0].subtitles.is_empty());
}

#[test]
fn scan_file_valid_video_returns_scan_result() {
    let scanner = Scanner::new(config_with_output("/out"));
    let listing = FolderListing { entries: vec![], subfolders: vec![] };
    let video = "/src/Inception.2010.1080p.BluRay.x264-GROUP.mkv";
    let result = scanner.scan_file(video, &A_FILE, &listing).unwrap();
    assert_eq!(result.source_path, video);
    assert!(result.media_info.title.contains("Inception"));
    assert_eq!(result.media_info.media_type, MediaType::Movie);
}

#[test]
fn scan_file_rejects_non_video_extension() {
    let scanner = Scanner::new(config_with_output("/out"));
    let listing = FolderListing { entries: vec![], subfolders: vec![] };
    match scanner.scan_file("/src/notes.TXT", &A_FILE, &listing) {
        Err(MediError::ParseFailed(m)) => assert_eq!(m, "not a video file: .txt"),
        other => panic!("expected ParseFailed, got: {other:?}"),
    }
}

#[test]
fn scan_file_in_place_proposed_path_relative_to_source() {
    let scanner = Scanner::new(Config::default());
    let listing = FolderListing { entries: vec![], subfolders: vec![] };
    let result = scanner
        .scan_file("/media/in/Inception.2010.1080p.BluRay.x264-GROUP.mkv", &A_FILE, &listing)
        .unwrap();
    assert_eq!(result.proposed_path, "/media/in/Inception (2010)/Inception (2010).mkv");
}

#[test]
fn filter_by_media_type_and_title() {
    let scanner = Scanner::new(config_with_output("/out"));
    let listing = FolderListing { entries: vec![], subfolders: vec![] };
    let results = vec![
        scanner
            .scan_file("/src/The.Office.S02E03.720p.BluRay.x264-DEMAND.mkv", &A_FILE, &listing)
            .unwrap(),
        scanner.scan_file("/src/Inception.2010.1080p.BluRay.x264-GROUP.mkv", &A_FILE, &listing).unwrap(),
    ];
    let series = ScanFilter { media_type: Some(MediaType::Series), status: None, title_search: None };
    let only = Scanner::filter_results(&results, &series);
    assert_eq!(only.len(), 1);
    assert!(only[0].media_info.title.contains("Office"));
    let search = ScanFilter { media_type: None, status: None, title_search: Some("INCEP".into()) };
    assert_eq!(Scanner::filter_results(&results, &search).len(), 1);
    assert_eq!(Scanner::filter_results(&results, &ScanFilter::default()).len(), 2);
}

// ---------------------------------------------------------------------------
// Undo decisions
// ---------------------------------------------------------------------------

fn record(dest: &str, size: u64) -> RenameRecord {
    RenameRecord {
        batch_id: "b1".into(),
        timestamp: "2024-01-01T00:00:00Z".into(),
        source_path: format!("/src/{dest}"),
        dest_path: format!("/dst/{dest}"),
        media_info: MediaInfo::default(),
        file_size: size,
        file_mtime: String::new(),
    }
}

#[test]
fn undo_eligible_when_all_checks_pass() {
    let checks = vec![UndoCheck {
        record: record("a.mkv", 10),
        probe: UndoProbe { dest_exists: true, source_exists: false, dest_size: DestSize::Known(10) },
    }];
    let e = check_undo_eligible("b1", &checks);
    assert!(e.eligible);
    assert_eq!(e.batch_id, "b1");
    assert!(e.ineligible_reasons.is_empty());
}

#[test]
fn undo_reports_every_failed_check() {
    let checks = vec![
        UndoCheck {
            record: record("a.mkv", 10),
            probe: UndoProbe { dest_exists: false, source_exists: true, dest_size: DestSize::Known(10) },
        },
        UndoCheck {
            record: record("b.mkv", 10),
            probe: UndoProbe { dest_exists: true, source_exists: true, dest_size: DestSize::Known(10) },
        },
        UndoCheck {
            record: record("c.mkv", 10),
            probe: UndoProbe { dest_exists: true, source_exists: false, dest_size: DestSize::Known(11) },
        },
        UndoCheck {
            record: record("d.mkv", 10),
            probe: UndoProbe {
                dest_exists: true,
                source_exists: false,
                dest_size: DestSize::Unreadable("denied".into()),
            },
        },
    ];
    let e = check_undo_eligible("b1", &checks);
    assert!(!e.eligible);
    let reasons: Vec<&str> = e.ineligible_reasons.iter().map(|i| i.reason.as_str()).collect();
    assert_eq!(
        reasons,
        vec![
            "destination file missing",
            "source location occupied",
            "file modified since rename",
            "cannot read file metadata: denied"
        ]
    );
    match ineligible_error(&e) {
        MediError::UndoNotEligible { batch_id, reason } => {
            assert_eq!(batch_id, "b1");
            assert!(reason.starts_with("/dst/a.mkv: destination file missing; /dst/b.mkv: "));
        }
        other => panic!("unexpected error: {other:?}"),
    }
}

#[test]
fn undo_result_moves_back() {
    let r = record("a.mkv", 1);
    let ok = undo_result(&r, UndoOutcome::Done);
    assert!(ok.success);
    assert_eq!(ok.source_path, "/dst/a.mkv");
    assert_eq!(ok.dest_path, "/src/a.mkv");
    let bad = undo_result(&r, UndoOutcome::CreateDirFailed("denied".into()));
    assert_eq!(bad.error.as_deref(), Some("failed to create parent dir: denied"));
}

// ---------------------------------------------------------------------------
// Watcher decisions
// ---------------------------------------------------------------------------

#[test]
fn watcher_targets_by_event_kind() {
    let paths = vec!["/w/old.mkv".to_string(), "/w/new.mkv".to_string()];
    assert_eq!(target_paths(WatchEventKind::Create, &paths), paths);
    assert_eq!(target_paths(WatchEventKind::RenameBoth, &paths), vec!["/w/new.mkv".to_string()]);
    assert!(target_paths(WatchEventKind::Other, &paths).is_empty());
}

#[test]
fn dedup_catches_raw_path_when_canonical_is_cached() {
    let mut cache = DedupCache::new();
    assert!(admit_path(&mut cache, "/var/w/a.mkv", "/private/var/w/a.mkv", true, 1000));
    assert!(cache.contains("/private/var/w/a.mkv"));
    assert!(cache.contains("/var/w/a.mkv"));
    assert!(!admit_path(&mut cache, "/var/w/a.mkv", "/var/w/a.mkv", true, 2000));
    cache.prune(1000 + 30000);
    assert!(!cache.contains("/var/w/a.mkv"));
    assert!(admit_path(&mut cache, "/var/w/a.mkv", "/var/w/a.mkv", true, 40000));
}

#[test]
fn watcher_ignores_non_video_and_missing_files() {
    let mut cache = DedupCache::new();
    assert!(!admit_path(&mut cache, "/w/readme.txt", "/w/readme.txt", true, 0));
    assert!(!admit_path(&mut cache, "/w/a.mkv", "/w/a.mkv", false, 0));
    assert!(!cache.contains("/w/a.mkv"));
}

#[test]
fn watcher_events_record_outcomes() {
    assert_eq!(event_filename("/w/dir/a.mkv"), "a.mkv");
    assert_eq!(event_filename("/w/.."), "unknown");
    let failed = scan_failed_event("t", "/w", "a.mkv", &MediError::ParseFailed("x".into()));
    assert_eq!(failed.action, WatcherAction::Error);
    assert_eq!(failed.detail.as_deref(), Some("scan failed: failed to parse filename: x"));
    let ok = vec![RenameResult { source_path: "a".into(), dest_path: "b".into(), success: true, error: None }];
    let renamed = rename_event("t", "/w", "a.mkv", "/out/A.mkv", &ok, Some("batch".into()));
    assert_eq!(renamed.action, WatcherAction::Renamed);
    assert_eq!(renamed.detail.as_deref(), Some("/out/A.mkv"));
    assert_eq!(renamed.batch_id.as_deref(), Some("batch"));
    let bad = vec![
        RenameResult { source_path: "a".into(), dest_path: "b".into(), success: false, error: Some("e1".into()) },
        RenameResult { source_path: "c".into(), dest_path: "d".into(), success: false, error: Some("e2".into()) },
    ];
    let failed = rename_event("t", "/w", "a.mkv", "/out/A.mkv", &bad, Some("batch".into()));
    assert_eq!(failed.action, WatcherAction::Error);
    assert_eq!(failed.detail.as_deref(), Some("rename failed: e1; e2"));
    assert!(failed.batch_id.is_none());
    let queued = queued_event("t", "/w", "a.mkv", "/out/A.mkv");
    assert_eq!(queued.action, WatcherAction::Queued);
}

#[test]
fn watch_plan_moves_video_then_subtitles() {
    let scanner = Scanner::new(config_with_output("/out"));
    let listing = FolderListing {
        entries: file_entries(&["Inception.2010.mkv", "Inception.2010.en.srt"]),
        subfolders: vec![],
    };
    let scan = scanner.scan_file("/src/Inception.2010.mkv", &A_FILE, &listing).unwrap();
    let plan = watch_plan(&scan);
    assert_eq!(plan.entries.len(), 2);
    assert_eq!(plan.entries[0].source_path, "/src/Inception.2010.mkv");
    assert_eq!(plan.entries[1].source_path, "/src/Inception.2010.en.srt");
    assert_eq!(plan.entries[1].dest_path, "/out/Inception (2010)/Inception (2010).en.srt");
}

// ---------------------------------------------------------------------------
// Output, commands and configuration checks
// ---------------------------------------------------------------------------

#[test]
fn format_status_plain_and_coloured() {
    let plain = OutputFormatter::with_terminal(false, false, false);
    assert!(!plain.color_enabled());
    assert_eq!(plain.format_status(&ScanStatus::Okay), "ok");
    assert_eq!(plain.format_status(&ScanStatus::Ambiguous), "!");
    assert_eq!(plain.format_status(&ScanStatus::Error), "x");
    let colour = OutputFormatter::with_terminal(false, true, false);
    assert_eq!(colour.format_status(&ScanStatus::Okay), "\u{1b}[32mok\u{1b}[39m");
    assert_eq!(colour.format_status(&ScanStatus::Conflict), "\u{1b}[31mx\u{1b}[39m");
    assert!(!OutputFormatter::with_terminal(true, true, false).color_enabled());
    assert!(!OutputFormatter::with_terminal(false, true, true).color_enabled());
}

#[test]
fn command_error_messages() {
    assert_eq!(CommandError::StateLock.message(), "state lock failed");
    assert_eq!(CommandError::Other("boom".into()).message(), "boom");
    assert_eq!(
        CommandError::Core(MediError::ConfigPathUnavailable).message(),
        "config path not available: platform config directory could not be determined"
    );
}

#[test]
fn preview_proposed_path_places_like_a_scan() {
    let info = MediaInfo {
        title: "Inception".into(),
        year: Some(2010),
        container: "mkv".into(),
        confidence: ParseConfidence::High,
        ..MediaInfo::default()
    };
    let in_place = Config::default();
    assert_eq!(
        preview_proposed_path(&in_place, "{title} ({year}).{ext}", &info, "/m/in/x.mkv").unwrap(),
        "/m/in/Inception (2010).mkv"
    );
    let out = Config { general: GeneralConfig { output_dir: Some("/out".into()), ..GeneralConfig::default() }, ..Config::default() };
    assert_eq!(
        preview_proposed_path(&out, "{title}.{ext}", &info, "/m/in/x.mkv").unwrap(),
        "/out/Inception.mkv"
    );
}

#[test]
fn plan_and_scan_events_from_front_end() {
    let entries = vec![RenameEntry { source_path: "a".into(), dest_path: "b".into(), media_info: None }];
    let plan = plan_from_entries(&entries);
    assert_eq!(plan.entries[0].dest_path, "b");
    let events = scan_events(vec![]);
    assert_eq!(events.len(), 1);
    assert!(matches!(events[0], ScanEvent::Complete { total: 0 }));
}

#[test]
fn check_config_value_validates_enums_and_templates() {
    assert!(check_config_value("general.operation", "COPY").unwrap().is_empty());
    assert_eq!(
        check_config_value("general.operation", "rename").unwrap_err(),
        "invalid operation: rename (allowed: move, copy)"
    );
    assert_eq!(
        check_config_value("watchers.0.mode", "later").unwrap_err(),
        "invalid watcher mode: later (allowed: auto, review)"
    );
    assert!(check_config_value("general.mode", "later").unwrap().is_empty());
    let w = check_config_value("templates.movie", "{title}").unwrap();
    assert!(w.iter().any(|x| x.variable == "year"));
}

#[test]
fn resolve_config_ignores_watcher_settings_default() {
    let global = Config::default();
    let wc = mediarr_core::types::WatcherConfig {
        path: "/w".into(),
        mode: mediarr_core::types::WatcherMode::Review,
        active: true,
        debounce_seconds: 5,
        settings: Some(WatcherSettings::default()),
    };
    assert_eq!(wc.resolve_config(&global), global);
}

#[test]
fn check_config_value_accepts_documented_strategies() {
    assert!(check_config_value("general.conflict_strategy", "NumericSuffix").unwrap().is_empty());
    assert!(check_config_value("general.conflict_strategy", "skip").unwrap().is_empty());
    assert!(check_config_value("general.conflict_strategy", "Overwrite").unwrap().is_empty());
    assert_eq!(
        check_config_value("general.conflict_strategy", "suffix").unwrap_err(),
        "invalid conflict_strategy: suffix (allowed: skip, overwrite, numericsuffix)"
    );
    assert!(check_config_value("subtitles.non_preferred_action", "KeepAll").unwrap().is_empty());
    assert!(check_config_value("subtitles.non_preferred_action", "review").unwrap().is_empty());
    assert!(check_config_value("subtitles.non_preferred_action", "delete").is_err());
}

#[test]
fn admit_path_keeps_other_remembered_paths() {
    let mut cache = DedupCache::new();
    assert!(admit_path(&mut cache, "/w/a.mkv", "/w/a.mkv", true, 1000));
    assert!(admit_path(&mut cache, "/w/b.mkv", "/w/b.mkv", true, 1500));
    assert!(cache.contains("/w/a.mkv"));
    assert!(cache.contains("/w/b.mkv"));
    assert!(!admit_path(&mut cache, "/w/a.mkv", "/w/a.mkv", true, 2000));
}

#[test]
fn undo_step_reports_whether_record_leaves_history() {
    let rec = RenameRecord {
        batch_id: "b".to_string(),
        timestamp: "2024-01-01T00:00:00Z".to_string(),
        source_path: "/src/a.mkv".to_string(),
        dest_path: "/dst/A.mkv".to_string(),
        media_info: MediaInfo::default(),
        file_size: 1,
        file_mtime: String::new(),
    };
    let (res, leaves) = undo_step(&rec, UndoOutcome::Done);
    assert!(leaves && res.success);
    assert_eq!(res.source_path, "/dst/A.mkv");
    assert_eq!(res.dest_path, "/src/a.mkv");
    let (res, leaves) = undo_step(&rec, UndoOutcome::MoveFailed("busy".to_string()));
    assert!(!leaves && !res.success);
    assert_eq!(res.error.as_deref(), Some("busy"));
    let (res, _) = undo_step(&rec, UndoOutcome::CreateDirFailed("denied".to_string()));
    assert_eq!(res.error.as_deref(), Some("failed to create parent dir: denied"));
}

#[test]
fn undo_order_goes_last_first() {
    let mk = |s: &str| RenameRecord {
        batch_id: "b".to_string(),
        timestamp: "t".to_string(),
        source_path: s.to_string(),
        dest_path: format!("{s}.out"),
        media_info: MediaInfo::default(),
        file_size: 0,
        file_mtime: String::new(),
    };
    let order = undo_order(vec![mk("/1"), mk("/2"), mk("/3")]);
    let srcs: Vec<&str> = order.iter().map(|r| r.source_path.as_str()).collect();
    assert_eq!(srcs, vec!["/3", "/2", "/1"]);
}

fn result(dest: &str, success: bool) -> RenameResult {
    RenameResult {
        source_path: "/w/in.mkv".to_string(),
        dest_path: dest.to_string(),
        success,
        error: if success { None } else { Some("x".to_string()) },
    }
}

#[test]
fn after_auto_run_remembers_and_records_only_when_all_succeeded() {
    let ok = vec![result("/out/A.mkv", true), result("/out/A.en.srt", true)];
    let after = after_auto_run(&ok);
    assert!(after.record);
    assert_eq!(after.remember, vec!["/out/A.mkv".to_string(), "/out/A.en.srt".to_string()]);
    let failed = vec![result("/out/A.mkv", true), result("/out/A.en.srt", false)];
    let after = after_auto_run(&failed);
    assert!(!after.record);
    assert!(after.remember.is_empty());
}
