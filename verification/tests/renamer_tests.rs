use mediarr_core::error::MediError;
use mediarr_core::renamer::{
    resolve_numeric_suffix, EntryStep, RenamePlan, RenamePlanEntry, RenameRun, Renamer,
    TransferOutcome,
};
use mediarr_core::types::{ConflictStrategy, RenameOperation};

fn plan(pairs: &[(&str, &str)]) -> RenamePlan {
    RenamePlan {
        entries: pairs
            .iter()
            .map(|(s, d)| RenamePlanEntry { source_path: s.to_string(), dest_path: d.to_string() })
            .collect(),
    }
}

fn existing(paths: &[&str]) -> Vec<String> {
    paths.iter().map(|p| p.to_string()).collect()
}

// ---------------------------------------------------------------------------
// Dry runs
// ---------------------------------------------------------------------------

#[test]
fn dry_run_valid_plan_returns_ok_without_creating_files() {
    let renamer = Renamer::new(RenameOperation::Move, ConflictStrategy::Skip, true);
    let p = plan(&[("/tmp/d/movie.mkv", "/tmp/d/output/Movie.mkv")]);
    let results = renamer.dry_run(&p, &existing(&["/tmp/d/movie.mkv"]));
    assert_eq!(results.len(), 1);
    assert!(results[0].success);
    assert_eq!(results[0].dest_path, "/tmp/d/output/Movie.mkv");
    assert!(results[0].error.is_none());
}

#[test]
fn dry_run_detects_conflict_when_target_exists() {
    let renamer = Renamer::new(RenameOperation::Move, ConflictStrategy::Skip, true);
    let p = plan(&[("/tmp/d/movie.mkv", "/tmp/d/existing.mkv")]);
    let results = renamer.dry_run(&p, &existing(&["/tmp/d/movie.mkv", "/tmp/d/existing.mkv"]));
    assert_eq!(results.len(), 1);
    assert!(!results[0].success);
    assert!(results[0].error.as_ref().unwrap().contains("skipped"));
}

#[test]
fn dry_run_detects_duplicate_targets_in_plan() {
    let renamer = Renamer::new(RenameOperation::Move, ConflictStrategy::Skip, true);
    let p = plan(&[("/tmp/d/movie1.mkv", "/tmp/d/output.mkv"), ("/tmp/d/movie2.mkv", "/tmp/d/output.mkv")]);
    let results = renamer.dry_run(&p, &existing(&[]));
    assert_eq!(results.len(), 2);
    assert!(results[0].success);
    assert!(!results[1].success);
    assert_eq!(results[1].error.as_deref(), Some("skipped: target already exists"));
}

#[test]
fn dry_run_with_numeric_suffix_computes_suffixed_path() {
    let renamer = Renamer::new(RenameOperation::Move, ConflictStrategy::NumericSuffix, true);
    let p = plan(&[("/tmp/d/movie.mkv", "/tmp/d/existing.mkv")]);
    let results = renamer.dry_run(&p, &existing(&["/tmp/d/existing.mkv"]));
    assert_eq!(results.len(), 1);
    assert!(results[0].success);
    assert_eq!(results[0].dest_path, "/tmp/d/existing (1).mkv");
}

#[test]
fn dry_run_overwrite_keeps_destination() {
    let renamer = Renamer::new(RenameOperation::Copy, ConflictStrategy::Overwrite, false);
    let p = plan(&[("/a/x.mkv", "/b/y.mkv")]);
    let results = renamer.dry_run(&p, &existing(&["/b/y.mkv"]));
    assert!(results[0].success);
    assert_eq!(results[0].dest_path, "/b/y.mkv");
}

#[test]
fn dry_run_reports_exhausted_suffixes() {
    let renamer = Renamer::new(RenameOperation::Move, ConflictStrategy::NumericSuffix, true);
    let mut taken = vec!["/d/Movie.mkv".to_string()];
    for i in 1..=99 {
        taken.push(format!("/d/Movie ({i}).mkv"));
    }
    let results = renamer.dry_run(&plan(&[("/s/m.mkv", "/d/Movie.mkv")]), &taken);
    assert!(!results[0].success);
    assert_eq!(
        results[0].error.as_deref(),
        Some("conflict resolution exhausted: all suffixes (1)--(99) exist for /d/Movie.mkv")
    );
    assert_eq!(results[0].dest_path, "/d/Movie.mkv");
}

// ---------------------------------------------------------------------------
// Numeric suffixes
// ---------------------------------------------------------------------------

#[test]
fn resolve_suffix_returns_first_available() {
    let resolved = resolve_numeric_suffix("/tmp/d/Movie.mkv", &existing(&["/tmp/d/Movie.mkv"])).unwrap();
    assert_eq!(resolved, "/tmp/d/Movie (1).mkv");
}

#[test]
fn resolve_suffix_skips_existing_suffixes() {
    let ex = existing(&["/tmp/d/Movie.mkv", "/tmp/d/Movie (1).mkv", "/tmp/d/Movie (2).mkv"]);
    let resolved = resolve_numeric_suffix("/tmp/d/Movie.mkv", &ex).unwrap();
    assert_eq!(resolved, "/tmp/d/Movie (3).mkv");
}

#[test]
fn resolve_numeric_suffix_errors_when_exhausted() {
    let mut ex = existing(&["/tmp/d/Movie.mkv"]);
    for i in 1..=99 {
        ex.push(format!("/tmp/d/Movie ({i}).mkv"));
    }
    let result = resolve_numeric_suffix("/tmp/d/Movie.mkv", &ex);
    assert!(result.is_err());
    let err = result.unwrap_err().message();
    assert!(err.contains("exhausted"), "Error should mention exhaustion: {err}");
}

#[test]
fn resolve_suffix_without_extension_or_directory() {
    assert_eq!(resolve_numeric_suffix("notes", &existing(&["notes"])).unwrap(), "notes (1)");
    assert_eq!(
        resolve_numeric_suffix("/d/.hidden", &existing(&[])).unwrap(),
        "/d/.hidden (1)"
    );
}

#[test]
fn resolve_suffix_uses_two_digit_numbers() {
    let mut ex = Vec::new();
    for i in 1..=9 {
        ex.push(format!("x/a ({i}).b"));
    }
    assert_eq!(resolve_numeric_suffix("x/a.b", &ex).unwrap(), "x/a (10).b");
}

// ---------------------------------------------------------------------------
// Carrying out a plan
// ---------------------------------------------------------------------------

#[test]
fn plan_entry_transfers_to_free_destination() {
    let renamer = Renamer::new(RenameOperation::Move, ConflictStrategy::Skip, true);
    let e = RenamePlanEntry { source_path: "/s/a.mkv".into(), dest_path: "/d/x/A.mkv".into() };
    match renamer.plan_entry(&e, &existing(&[])) {
        EntryStep::Transfer { dest, remove_existing, create_dir } => {
            assert_eq!(dest, "/d/x/A.mkv");
            assert!(!remove_existing);
            assert_eq!(create_dir.as_deref(), Some("/d/x"));
        }
        EntryStep::Record(r) => panic!("unexpected record: {r:?}"),
    }
}

#[test]
fn plan_entry_skips_or_overwrites_existing_destination() {
    let e = RenamePlanEntry { source_path: "/s/a.mkv".into(), dest_path: "A.mkv".into() };
    let skip = Renamer::new(RenameOperation::Move, ConflictStrategy::Skip, true);
    match skip.plan_entry(&e, &existing(&["A.mkv"])) {
        EntryStep::Record(r) => {
            assert!(!r.success);
            assert_eq!(r.error.as_deref(), Some("skipped: target already exists"));
        }
        _ => panic!("expected a skipped record"),
    }
    let over = Renamer::new(RenameOperation::Move, ConflictStrategy::Overwrite, true);
    match over.plan_entry(&e, &existing(&["A.mkv"])) {
        EntryStep::Transfer { dest, remove_existing, create_dir } => {
            assert_eq!(dest, "A.mkv");
            assert!(remove_existing);
            assert!(create_dir.is_none(), "a bare file name has no directory to create");
        }
        _ => panic!("expected an overwrite"),
    }
}

#[test]
fn plan_entry_uses_numeric_suffix() {
    let e = RenamePlanEntry { source_path: "/s/a.mkv".into(), dest_path: "/d/A.mkv".into() };
    let r = Renamer::new(RenameOperation::Copy, ConflictStrategy::NumericSuffix, false);
    match r.plan_entry(&e, &existing(&["/d/A.mkv", "/d/A (1).mkv"])) {
        EntryStep::Transfer { dest, remove_existing, create_dir } => {
            assert_eq!(dest, "/d/A (2).mkv");
            assert!(!remove_existing);
            assert!(create_dir.is_none());
        }
        _ => panic!("expected a transfer"),
    }
}

#[test]
fn transfer_result_stops_on_failure() {
    let renamer = Renamer::new(RenameOperation::Move, ConflictStrategy::Skip, true);
    let e = RenamePlanEntry { source_path: "/s/a.mkv".into(), dest_path: "/d/A.mkv".into() };
    let (ok, go_on) = renamer.transfer_result(&e, "/d/A.mkv", TransferOutcome::Done);
    assert!(ok.success && go_on);
    let (bad, go_on) =
        renamer.transfer_result(&e, "/d/A.mkv", TransferOutcome::CreateDirFailed("denied".into()));
    assert!(!bad.success && !go_on);
    assert_eq!(bad.error.as_deref(), Some("failed to create directory: denied"));
    let (bad, _) = renamer.transfer_result(&e, "/d/A.mkv", TransferOutcome::SizeMismatch);
    assert_eq!(bad.error.as_deref(), Some("copy verification failed: size mismatch"));
    let (bad, _) = renamer.transfer_result(&e, "/d/A (1).mkv", TransferOutcome::RemoveFailed("busy".into()));
    assert_eq!(bad.dest_path, "/d/A.mkv");
    assert_eq!(bad.error.as_deref(), Some("overwrite failed: busy"));
    let (bad, _) = renamer.transfer_result(&e, "/d/A.mkv", TransferOutcome::VerifyFailed("gone".into()));
    assert_eq!(bad.error.as_deref(), Some("copy verify failed: gone"));
    let (bad, _) = renamer.transfer_result(&e, "/d/A.mkv", TransferOutcome::Failed("io".into()));
    assert_eq!(bad.error.as_deref(), Some("io"));
}

#[test]
fn exhausted_error_message_names_the_destination() {
    let e = MediError::ConflictResolutionExhausted { path: "/x/y.mkv".into() };
    assert_eq!(
        e.message(),
        "conflict resolution exhausted: all suffixes (1)--(99) exist for /x/y.mkv"
    );
}

#[test]
fn dry_run_suffixes_within_one_plan_are_distinct() {
    let renamer = Renamer::new(RenameOperation::Move, ConflictStrategy::NumericSuffix, true);
    let p = plan(&[
        ("/s/a.mkv", "/nx_mediarr/M.mkv"),
        ("/s/b.mkv", "/nx_mediarr/M.mkv"),
        ("/s/c.mkv", "/nx_mediarr/M.mkv"),
    ]);
    let results = renamer.dry_run(&p, &existing(&[]));
    assert!(results.iter().all(|r| r.success));
    assert_eq!(results[0].dest_path, "/nx_mediarr/M.mkv");
    assert_eq!(results[1].dest_path, "/nx_mediarr/M (1).mkv");
    assert_eq!(results[2].dest_path, "/nx_mediarr/M (2).mkv");
}

#[test]
fn run_stops_after_exhausted_suffixes() {
    let renamer = Renamer::new(RenameOperation::Move, ConflictStrategy::NumericSuffix, true);
    let p = plan(&[("/s/a.mkv", "/d/M.mkv"), ("/s/b.mkv", "/d/N.mkv")]);
    let mut taken = vec!["/d/M.mkv".to_string()];
    for i in 1..=99 {
        taken.push(format!("/d/M ({i}).mkv"));
    }
    let mut run = RenameRun::new(renamer, p);
    assert!(!run.finished());
    match run.next_step(&taken) {
        Some(EntryStep::Record(r)) => assert!(!r.success),
        _ => panic!("expected a recorded failure"),
    }
    assert!(run.finished());
    assert!(run.next_step(&existing(&[])).is_none());
    let results = run.into_results();
    assert_eq!(results.len(), 1);
    assert!(results[0].error.as_deref().unwrap().contains("exhausted"));
}

#[test]
fn run_stops_after_a_skipped_conflict() {
    let renamer = Renamer::new(RenameOperation::Move, ConflictStrategy::Skip, true);
    let p = plan(&[("/s/a.mkv", "/d/A.mkv"), ("/s/b.mkv", "/d/B.mkv")]);
    let mut run = RenameRun::new(renamer, p);
    assert!(matches!(run.next_step(&existing(&["/d/A.mkv"])), Some(EntryStep::Record(_))));
    assert!(run.finished());
    let results = run.into_results();
    assert_eq!(results.len(), 1);
    assert_eq!(results[0].error.as_deref(), Some("skipped: target already exists"));
}

#[test]
fn run_transfers_each_entry_and_stops_on_failed_transfer() {
    let renamer = Renamer::new(RenameOperation::Move, ConflictStrategy::Skip, false);
    let p = plan(&[("/s/a.mkv", "/d/A.mkv"), ("/s/b.mkv", "/d/B.mkv"), ("/s/c.mkv", "/d/C.mkv")]);
    let mut run = RenameRun::new(renamer, p);
    match run.next_step(&existing(&[])) {
        Some(EntryStep::Transfer { dest, remove_existing, create_dir }) => {
            assert_eq!(dest, "/d/A.mkv");
            assert!(!remove_existing);
            assert!(create_dir.is_none());
        }
        _ => panic!("expected a transfer"),
    }
    // While a transfer is awaited, no further step is decided.
    assert!(run.next_step(&existing(&[])).is_none());
    run.complete(TransferOutcome::Done);
    assert_eq!(run.position(), 1);
    assert!(matches!(run.next_step(&existing(&["/d/A.mkv"])), Some(EntryStep::Transfer { .. })));
    run.complete(TransferOutcome::Failed("disk full".to_string()));
    assert!(run.finished());
    let results = run.into_results();
    assert_eq!(results.len(), 2);
    assert!(results[0].success);
    assert_eq!(results[0].dest_path, "/d/A.mkv");
    assert!(!results[1].success);
    assert_eq!(results[1].error.as_deref(), Some("disk full"));
}

#[test]
fn successful_run_matches_its_dry_run() {
    let renamer = Renamer::new(RenameOperation::Move, ConflictStrategy::NumericSuffix, false);
    let p = plan(&[("/s/a.mkv", "/d/M.mkv"), ("/s/b.mkv", "/d/M.mkv"), ("/s/c.mkv", "/d/N.mkv")]);
    let dry = renamer.dry_run(&p, &existing(&["/d/M.mkv"]));
    let mut on_disk = existing(&["/d/M.mkv"]);
    let mut run = RenameRun::new(renamer, p);
    while !run.finished() {
        match run.next_step(&on_disk) {
            Some(EntryStep::Transfer { dest, .. }) => {
                on_disk.push(dest);
                run.complete(TransferOutcome::Done);
            }
            Some(EntryStep::Record(_)) => {}
            None => break,
        }
    }
    let results = run.into_results();
    assert_eq!(results.len(), dry.len());
    for (r, d) in results.iter().zip(dry.iter()) {
        assert_eq!(r.dest_path, d.dest_path);
        assert_eq!(r.success, d.success);
    }
    assert_eq!(results[0].dest_path, "/d/M (1).mkv");
    assert_eq!(results[1].dest_path, "/d/M (2).mkv");
}
