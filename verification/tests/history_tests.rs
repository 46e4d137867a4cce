use mediarr_core::history::{
    batch_for_results, check_undo_eligible, generate_batch_id, ineligible_error, DestMeta,
    DestSize, RecordedRename, UndoCheck, UndoOutcome, UndoProbe, UndoRun,
};
use mediarr_core::types::{MediaInfo, RenameRecord, RenameResult, WatcherSettings};
use mediarr_core::MediError;

fn make_record(batch_id: &str, source: &str, dest: &str, size: u64) -> RenameRecord {
    RenameRecord {
        batch_id: batch_id.to_string(),
        timestamp: "2024-01-01T00:00:00Z".to_string(),
        source_path: source.to_string(),
        dest_path: dest.to_string(),
        media_info: MediaInfo::default(),
        file_size: size,
        file_mtime: String::new(),
    }
}

fn renamed(source: &str, dest: &str, success: bool, size: Option<u64>) -> RecordedRename {
    RecordedRename {
        result: RenameResult {
            source_path: source.to_string(),
            dest_path: dest.to_string(),
            success,
            error: None,
        },
        meta: size.map(|s| DestMeta { size: s, mtime: "2024-01-01T00:00:00Z".to_string() }),
    }
}

#[test]
fn test_check_undo_eligible_dest_missing() {
    let batch_id = generate_batch_id();
    let record = make_record(&batch_id, "/tmp/x/source.mkv", "/tmp/x/nonexistent_dest.mkv", 1000);
    let checks = vec![UndoCheck {
        record,
        probe: UndoProbe { dest_exists: false, source_exists: false, dest_size: DestSize::Unreadable("gone".into()) },
    }];
    let eligibility = check_undo_eligible(&batch_id, &checks);
    assert!(!eligibility.eligible);
    assert_eq!(eligibility.ineligible_reasons.len(), 1);
    assert_eq!(eligibility.ineligible_reasons[0].reason, "destination file missing");
}

#[test]
fn test_execute_undo_fails_when_ineligible() {
    let batch_id = generate_batch_id();
    let record = make_record(&batch_id, "/tmp/x/source.mkv", "/tmp/x/nonexistent.mkv", 1000);
    let checks = vec![UndoCheck {
        record,
        probe: UndoProbe { dest_exists: false, source_exists: false, dest_size: DestSize::Unreadable("gone".into()) },
    }];
    let eligibility = check_undo_eligible(&batch_id, &checks);
    assert!(!eligibility.eligible);
    match ineligible_error(&eligibility) {
        MediError::UndoNotEligible { batch_id: bid, .. } => assert_eq!(bid, batch_id),
        other => panic!("expected UndoNotEligible, got: {other:?}"),
    }
}

#[test]
fn test_generate_batch_id_is_uuid_v4() {
    let id = generate_batch_id();
    assert_eq!(id.len(), 36);
    let parts: Vec<&str> = id.split('-').collect();
    assert_eq!(parts.len(), 5);
    assert_eq!(parts[0].len(), 8);
    assert_eq!(parts[1].len(), 4);
    assert_eq!(parts[2].len(), 4);
    assert_eq!(parts[3].len(), 4);
    assert_eq!(parts[4].len(), 12);
    assert!(parts[2].starts_with('4'));
}

#[test]
fn batch_ids_differ_between_calls() {
    assert_ne!(generate_batch_id(), generate_batch_id());
}

#[test]
fn empty_watcher_settings_normalized_via_is_empty() {
    let s = WatcherSettings::default();
    assert!(s.is_empty(), "default settings override nothing");
    let mut t = WatcherSettings::default();
    t.create_directories = Some(false);
    assert!(!t.is_empty());
}

#[test]
fn batch_for_results_records_readable_successes() {
    let renames = vec![
        renamed("/s/a.mkv", "/d/a.mkv", true, Some(5)),
        renamed("/s/b.mkv", "/d/b.mkv", false, None),
        renamed("/s/c.mkv", "/d/c.mkv", true, None),
    ];
    let (batch_id, records) = batch_for_results("2024-02-02T00:00:00Z", &renames, &vec![]);
    assert_eq!(batch_id.len(), 36);
    assert_eq!(records.len(), 1);
    assert_eq!(records[0].batch_id, batch_id);
    assert_eq!(records[0].source_path, "/s/a.mkv");
    assert_eq!(records[0].file_size, 5);
    assert_eq!(records[0].timestamp, "2024-02-02T00:00:00Z");
}

#[test]
fn batch_for_results_without_records_has_no_id() {
    let renames = vec![renamed("/s/b.mkv", "/d/b.mkv", false, None), renamed("/s/c.mkv", "/d/c.mkv", true, None)];
    let (batch_id, records) = batch_for_results("t", &renames, &vec![]);
    assert!(batch_id.is_empty());
    assert!(records.is_empty());
}

#[test]
fn undo_run_reverses_batch_and_keeps_only_failed_records() {
    let batch = vec![
        make_record("b", "/s/1.mkv", "/d/1.mkv", 1),
        make_record("b", "/s/2.mkv", "/d/2.mkv", 1),
        make_record("b", "/s/3.mkv", "/d/3.mkv", 1),
    ];
    let mut run = UndoRun::new(batch);
    let mut seen = Vec::new();
    let outcomes = vec![
        UndoOutcome::Done,
        UndoOutcome::MoveFailed("busy".to_string()),
        UndoOutcome::Done,
    ];
    for outcome in outcomes {
        let rec = run.current().expect("a record is left").clone();
        seen.push(rec.dest_path.clone());
        run.finish(outcome);
    }
    assert!(run.current().is_none());
    assert!(!run.finish(UndoOutcome::Done));
    assert_eq!(seen, vec!["/d/3.mkv", "/d/2.mkv", "/d/1.mkv"]);
    let (results, undone) = run.into_parts();
    assert_eq!(results.len(), 3);
    assert_eq!(results[0].source_path, "/d/3.mkv");
    assert_eq!(results[0].dest_path, "/s/3.mkv");
    assert!(results[0].success);
    assert!(!results[1].success);
    assert_eq!(results[1].error.as_deref(), Some("busy"));
    assert_eq!(undone, vec!["/d/3.mkv".to_string(), "/d/1.mkv".to_string()]);
}
