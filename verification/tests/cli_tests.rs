use mediarr_core::args::{debounce_seconds, WatchArgs};
use mediarr_core::history::{records_for_batch, DestMeta, RecordedRename};
use mediarr_core::output::OutputFormatter;
use mediarr_core::selection::{
    actionable_indices, approve_all_steps, media_type_from_arg, parse_numbers, plan_for_results,
    rename_exit_code, rename_selection, review_plan, scan_summary, select_numbers,
    watch_mode_from_arg, without_excluded, ReviewPlan, ReviewStep,
};
use mediarr_core::types::{
    DiscoveryMethod, MediaInfo, MediaType, RenameResult, ScanResult, ScanStatus, SubtitleMatch,
    WatcherMode,
};

fn result(source: &str, proposed: &str, status: ScanStatus) -> ScanResult {
    ScanResult {
        source_path: source.to_string(),
        media_info: MediaInfo::default(),
        proposed_path: proposed.to_string(),
        subtitles: vec![],
        status,
        ambiguity_reason: None,
        alternatives: vec![],
    }
}

fn done(source: &str, dest: &str, success: bool) -> RenameResult {
    RenameResult {
        source_path: source.to_string(),
        dest_path: dest.to_string(),
        success,
        error: if success { None } else { Some("failed".to_string()) },
    }
}

#[test]
fn actionable_results_are_ok_and_ambiguous() {
    let results = vec![
        result("/a.mkv", "/o/a.mkv", ScanStatus::Okay),
        result("/b.mkv", "/o/b.mkv", ScanStatus::Conflict),
        result("/c.mkv", "/o/c.mkv", ScanStatus::Ambiguous),
        result("/d.mkv", "", ScanStatus::Error),
    ];
    assert_eq!(actionable_indices(&results), vec![0, 2]);
}

#[test]
fn typed_numbers_are_trimmed_and_non_numbers_dropped() {
    assert_eq!(parse_numbers(" 1, 3 ,x,12"), vec![1, 3, 12]);
    assert_eq!(parse_numbers(""), Vec::<usize>::new());
}

#[test]
fn selection_keeps_numbers_in_range() {
    assert_eq!(select_numbers("0,1,2,5,3", 3), vec![1, 2, 3]);
}

#[test]
fn exclusions_remove_numbered_items() {
    assert_eq!(without_excluded(4, &vec![2, 4, 9]), vec![0, 2]);
    assert_eq!(without_excluded(2, &vec![]), vec![0, 1]);
}

#[test]
fn plan_follows_each_video_with_its_subtitles() {
    let mut first = result("/src/a.mkv", "/out/A.mkv", ScanStatus::Okay);
    first.subtitles.push(SubtitleMatch {
        source_path: "/src/a.en.srt".to_string(),
        proposed_path: "/out/A.en.srt".to_string(),
        language: "en".to_string(),
        subtitle_type: None,
        discovery_method: DiscoveryMethod::Sidecar,
        is_vobsub_pair: false,
        companion_path: None,
    });
    let second = result("/src/b.mkv", "/out/B.mkv", ScanStatus::Okay);
    let plan = plan_for_results(&[first, second]);
    let pairs: Vec<(String, String)> =
        plan.entries.iter().map(|e| (e.source_path.clone(), e.dest_path.clone())).collect();
    assert_eq!(
        pairs,
        vec![
            ("/src/a.mkv".to_string(), "/out/A.mkv".to_string()),
            ("/src/a.en.srt".to_string(), "/out/A.en.srt".to_string()),
            ("/src/b.mkv".to_string(), "/out/B.mkv".to_string()),
        ]
    );
}

#[test]
fn summary_counts_by_status() {
    let results = vec![
        result("/a", "/o/a", ScanStatus::Okay),
        result("/b", "/o/b", ScanStatus::Okay),
        result("/c", "/o/c", ScanStatus::Ambiguous),
        result("/d", "/o/d", ScanStatus::Conflict),
        result("/e", "", ScanStatus::Error),
    ];
    let s = scan_summary(&results);
    assert_eq!((s.total, s.ready, s.ambiguous, s.conflicts), (5, 2, 1, 2));
}

#[test]
fn exit_code_reflects_failures() {
    assert_eq!(rename_exit_code(3, 0), 0);
    assert_eq!(rename_exit_code(0, 2), 1);
    assert_eq!(rename_exit_code(1, 1), 3);
    assert_eq!(rename_exit_code(0, 0), 0);
}

#[test]
fn media_type_argument_values() {
    assert_eq!(media_type_from_arg("movie"), Some(MediaType::Movie));
    assert_eq!(media_type_from_arg("series"), Some(MediaType::Series));
    assert_eq!(media_type_from_arg("anime"), Some(MediaType::Series));
    assert_eq!(media_type_from_arg("film"), None);
}

#[test]
fn watch_mode_argument_values() {
    assert_eq!(watch_mode_from_arg(None), Ok(WatcherMode::Auto));
    assert_eq!(watch_mode_from_arg(Some("review")), Ok(WatcherMode::Review));
    assert_eq!(watch_mode_from_arg(Some("auto")), Ok(WatcherMode::Auto));
    assert_eq!(watch_mode_from_arg(Some("fast")), Err("unknown mode: fast".to_string()));
}

#[test]
fn debounce_defaults_to_five_seconds() {
    let mut args = WatchArgs { path: "/w".to_string(), mode: None, debounce: None };
    assert_eq!(debounce_seconds(&args), 5);
    args.debounce = Some(12);
    assert_eq!(debounce_seconds(&args), 12);
}

#[test]
fn batch_records_keep_successful_renames_with_metadata() {
    let mut info = MediaInfo::default();
    info.title = "Inception".to_string();
    let renames = vec![
        RecordedRename {
            result: done("/src/a.mkv", "/out/a.mkv", true),
            meta: Some(DestMeta { size: 10, mtime: "2024-01-01T00:00:00Z".to_string() }),
        },
        RecordedRename { result: done("/src/b.mkv", "/out/b.mkv", false), meta: None },
        RecordedRename { result: done("/src/c.mkv", "/out/c.mkv", true), meta: None },
        RecordedRename {
            result: done("/src/d.mkv", "/out/d.mkv", true),
            meta: Some(DestMeta { size: 7, mtime: String::new() }),
        },
    ];
    let infos = vec![("/src/a.mkv".to_string(), info)];
    let records = records_for_batch("batch-1", "2024-01-02T00:00:00Z", &renames, &infos);
    assert_eq!(records.len(), 2);
    assert_eq!(records[0].batch_id, "batch-1");
    assert_eq!(records[0].timestamp, "2024-01-02T00:00:00Z");
    assert_eq!(records[0].source_path, "/src/a.mkv");
    assert_eq!(records[0].dest_path, "/out/a.mkv");
    assert_eq!(records[0].media_info.title, "Inception");
    assert_eq!(records[0].file_size, 10);
    assert_eq!(records[1].source_path, "/src/d.mkv");
    assert_eq!(records[1].media_info.title, MediaInfo::default().title);
    assert_eq!(records[1].file_size, 7);
}

#[test]
fn result_markers_follow_colour_setting() {
    let plain = OutputFormatter::with_terminal(false, false, false);
    assert_eq!(plain.result_marker(true), "ok");
    assert_eq!(plain.result_marker(false), "FAIL");
    let coloured = OutputFormatter::with_terminal(false, true, false);
    assert_eq!(coloured.result_marker(true), "\x1b[32mok\x1b[39m");
    assert_eq!(coloured.result_marker(false), "\x1b[31mFAIL\x1b[39m");
}

#[test]
fn rename_prompt_answers() {
    assert_eq!(rename_selection("q\n", 3), None);
    assert_eq!(rename_selection(" Q ", 3), None);
    assert_eq!(rename_selection("\n", 3), Some(vec![0, 1, 2]));
    assert_eq!(rename_selection("2, 7\n", 3), Some(vec![0, 2]));
    assert_eq!(rename_selection("qq", 2), Some(vec![0, 1]));
}

#[test]
fn review_prompt_answers() {
    let stale = vec![false, true, false];
    assert_eq!(review_plan("q", &stale), ReviewPlan::Quit);
    assert_eq!(review_plan("R\n", &stale), ReviewPlan::RejectAll);
    assert_eq!(
        review_plan("3,2,9,0\n", &stale),
        ReviewPlan::Steps(vec![ReviewStep::Approve(2), ReviewStep::Reject(1)])
    );
    assert_eq!(review_plan("x", &stale), ReviewPlan::Steps(vec![]));
}

#[test]
fn approving_all_rejects_stale_entries() {
    assert_eq!(
        approve_all_steps(&vec![true, false]),
        vec![ReviewStep::Reject(0), ReviewStep::Approve(1)]
    );
}
