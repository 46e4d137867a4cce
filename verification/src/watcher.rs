//! Decisions of the folder watcher: which paths of a file-system event are
//! considered, which of them were handled too recently, and what is planned
//! and logged for a file.
//!
//! Receiving events, reading the clock, renaming and writing the history
//! are the caller's; times are milliseconds on a monotonic clock.

use vstd::prelude::*;
use crate::error::{error_message, MediError, MediErrorV};
use crate::fs_util::{is_video_file, is_video_path};
use crate::paths::{name_part, split_path};
use crate::renamer::{RenamePlan, RenamePlanEntry};
use crate::text::join_with_seq;
use crate::types::{
    opt_view, RenameResult, ReviewQueueEntry, ReviewStatus, ScanResult, WatcherAction,
    WatcherEvent,
};

verus! {

/// How long a handled path is remembered, in milliseconds.
pub const DEDUP_WINDOW_MS: u64 = 30000;

/// How many activity events are kept per watched folder.
pub const DEFAULT_MAX_EVENTS: usize = 500;

/// The kinds of file-system events the watcher tells apart.
#[derive(Debug, Clone, Copy, PartialEq, Eq, Structural)]
pub enum WatchEventKind {
    /// A file was created.
    Create,
    /// The destination side of a rename.
    RenameTo,
    /// A rename whose side is unknown (the path exists).
    RenameAny,
    /// A rename with both paths, old first.
    RenameBoth,
    /// Anything else.
    Other,
}

/// The paths of an event that are considered: all of them for creations
/// and incoming renames, the destination (the last path) of a rename with
/// both paths, none otherwise.
pub open spec fn event_targets(kind: WatchEventKind, paths: Seq<Seq<char>>) -> Seq<Seq<char>> {
    match kind {
        WatchEventKind::Create | WatchEventKind::RenameTo | WatchEventKind::RenameAny => paths,
        WatchEventKind::RenameBoth => if paths.len() > 0 {
            seq![paths.last()]
        } else {
            Seq::<Seq<char>>::empty()
        },
        WatchEventKind::Other => Seq::<Seq<char>>::empty(),
    }
}

/// The paths of an event that are considered.
pub fn target_paths(kind: WatchEventKind, paths: &Vec<String>) -> (r: Vec<String>)
    ensures
        crate::types::strings_view(r@) == event_targets(kind, crate::types::strings_view(paths@)),
{
    match kind {
        WatchEventKind::Create | WatchEventKind::RenameTo | WatchEventKind::RenameAny => {
            crate::types::clone_strings(paths)
        },
        WatchEventKind::RenameBoth => {
            let mut r: Vec<String> = Vec::new();
            if paths.len() > 0 {
                r.push(paths[paths.len() - 1].clone());
                assert(crate::types::strings_view(r@) =~= seq![
                    crate::types::strings_view(paths@).last(),
                ]);
            }
            r
        },
        WatchEventKind::Other => Vec::new(),
    }
}

/// The time since `at`, zero if `at` is later than `now`.
pub open spec fn age(now: u64, at: u64) -> int {
    if now >= at {
        now - at
    } else {
        0
    }
}

/// Recently handled paths with the time they were handled.
pub struct DedupCache {
    entries: Vec<(String, u64)>,
}

/// The entries of a cache as plain values.
pub open spec fn cache_entries(v: Seq<(String, u64)>) -> Seq<(Seq<char>, u64)> {
    v.map_values(|e: (String, u64)| (e.0@, e.1))
}

impl DedupCache {
    /// The cache's entries, oldest first.
    pub closed spec fn view_entries(&self) -> Seq<(Seq<char>, u64)> {
        cache_entries(self.entries@)
    }

    /// Whether a path is remembered.
    pub open spec fn has(&self, p: Seq<char>) -> bool {
        exists|i: int| 0 <= i < self.view_entries().len() && (#[trigger] self.view_entries()[i]).0 == p
    }

    /// An empty cache.
    pub fn new() -> (r: DedupCache)
        ensures
            r.view_entries() == Seq::<(Seq<char>, u64)>::empty(),
    {
        let r = DedupCache { entries: Vec::new() };
        assert(cache_entries(r.entries@) =~= Seq::<(Seq<char>, u64)>::empty());
        r
    }

    /// Forgets the paths handled `DEDUP_WINDOW_MS` or longer ago.
    pub fn prune(&mut self, now: u64)
        ensures
            final(self).view_entries() == old(self).view_entries().filter(
                |e: (Seq<char>, u64)| age(now, e.1) < DEDUP_WINDOW_MS,
            ),
    {
        let ghost pred = |e: (Seq<char>, u64)| age(now, e.1) < DEDUP_WINDOW_MS;
        let ghost old_entries = cache_entries(self.entries@);
        let mut kept: Vec<(String, u64)> = Vec::new();
        let mut i: usize = 0;
        while i < self.entries.len()
            invariant
                i <= self.entries@.len(),
                old_entries == cache_entries(self.entries@),
                pred == (|e: (Seq<char>, u64)| age(now, e.1) < DEDUP_WINDOW_MS),
                cache_entries(kept@) == old_entries.subrange(0, i as int).filter(pred),
            decreases self.entries.len() - i,
        {
            proof {
                reveal(Seq::filter);
                assert(old_entries.subrange(0, i + 1).drop_last() =~= old_entries.subrange(
                    0,
                    i as int,
                ));
                assert(old_entries.subrange(0, i + 1).last() == old_entries[i as int]);
            }
            let t = self.entries[i].1;
            let a: u64 = if now >= t {
                now - t
            } else {
                0
            };
            if a < DEDUP_WINDOW_MS {
                kept.push((self.entries[i].0.clone(), t));
            }
            assert(cache_entries(kept@) =~= old_entries.subrange(0, i + 1).filter(pred));
            i = i + 1;
        }
        assert(old_entries.subrange(0, old_entries.len() as int) =~= old_entries);
        self.entries = kept;
    }

    /// Whether a path is remembered.
    pub fn contains(&self, p: &str) -> (r: bool)
        ensures
            r == self.has(p@),
    {
        let ghost es = cache_entries(self.entries@);
        let mut i: usize = 0;
        while i < self.entries.len()
            invariant
                i <= self.entries@.len(),
                es == cache_entries(self.entries@),
                forall|k: int| 0 <= k < i ==> (#[trigger] es[k]).0 != p@,
            decreases self.entries.len() - i,
        {
            let c = crate::text::to_chars(self.entries[i].0.as_str());
            if crate::text::eq_str(&c, p) {
                assert(es[i as int].0 == p@);
                assert(self.view_entries()[i as int].0 == p@);
                return true;
            }
            i = i + 1;
        }
        false
    }

    /// Remembers a path as handled at `now`, replacing an earlier time.
    pub fn insert(&mut self, p: &str, now: u64)
        ensures
            final(self).view_entries() == old(self).view_entries().filter(
                |e: (Seq<char>, u64)| e.0 != p@,
            ).push((p@, now)),
    {
        let ghost pred = |e: (Seq<char>, u64)| e.0 != p@;
        let ghost old_entries = cache_entries(self.entries@);
        let mut kept: Vec<(String, u64)> = Vec::new();
        let mut i: usize = 0;
        while i < self.entries.len()
            invariant
                i <= self.entries@.len(),
                old_entries == cache_entries(self.entries@),
                pred == (|e: (Seq<char>, u64)| e.0 != p@),
                cache_entries(kept@) == old_entries.subrange(0, i as int).filter(pred),
            decreases self.entries.len() - i,
        {
            proof {
                reveal(Seq::filter);
                assert(old_entries.subrange(0, i + 1).drop_last() =~= old_entries.subrange(
                    0,
                    i as int,
                ));
                assert(old_entries.subrange(0, i + 1).last() == old_entries[i as int]);
            }
            let c = crate::text::to_chars(self.entries[i].0.as_str());
            if !crate::text::eq_str(&c, p) {
                kept.push((self.entries[i].0.clone(), self.entries[i].1));
            }
            assert(cache_entries(kept@) =~= old_entries.subrange(0, i + 1).filter(pred));
            i = i + 1;
        }
        assert(old_entries.subrange(0, old_entries.len() as int) =~= old_entries);
        kept.push((String::from_str(p), now));
        assert(cache_entries(kept@) =~= old_entries.filter(pred).push((p@, now)));
        self.entries = kept;
    }
}

/// Whether a path of an event is handled: it must name a video file, be
/// remembered neither under its canonical nor its raw form, and still
/// exist.
pub open spec fn should_handle(
    cache: DedupCache,
    raw: Seq<char>,
    canonical: Seq<char>,
    exists: bool,
) -> bool {
    is_video_path(raw) && !cache.has(canonical) && !cache.has(raw) && exists
}

/// The entries of a cache once `p` is remembered at `now`: any earlier
/// entry for `p` dropped, the new one last.
pub open spec fn remembered(es: Seq<(Seq<char>, u64)>, p: Seq<char>, now: u64) -> Seq<(Seq<char>, u64)> {
    es.filter(|e: (Seq<char>, u64)| e.0 != p).push((p, now))
}

/// The entries of a cache once a handled path is remembered: under its
/// raw form first, where that differs from the canonical one, then under
/// its canonical form.
pub open spec fn admitted(es: Seq<(Seq<char>, u64)>, raw: Seq<char>, canonical: Seq<char>, now: u64) -> Seq<(Seq<char>, u64)> {
    if raw == canonical {
        remembered(es, canonical, now)
    } else {
        remembered(remembered(es, raw, now), canonical, now)
    }
}

/// Decides whether to handle a path of an event and, if so, remembers it
/// at `now` under its canonical form and, where that differs, its raw
/// form, so that further events for it are skipped.
pub fn admit_path(cache: &mut DedupCache, raw: &str, canonical: &str, exists: bool, now: u64) -> (r:
    bool)
    ensures
        r == should_handle(*old(cache), raw@, canonical@, exists),
        !r ==> final(cache).view_entries() == old(cache).view_entries(),
        r ==> final(cache).view_entries() == admitted(old(cache).view_entries(), raw@, canonical@, now),
        r ==> final(cache).has(canonical@) && final(cache).has(raw@),
{
    if !is_video_file(raw) {
        return false;
    }
    if cache.contains(canonical) || cache.contains(raw) {
        return false;
    }
    if !exists {
        return false;
    }
    let rc = crate::text::to_chars(raw);
    let same = crate::text::eq_str(&rc, canonical);
    if !same {
        cache.insert(raw, now);
        let ghost mid = cache.view_entries();
        assert(mid[mid.len() - 1] == (raw@, now));
        cache.insert(canonical, now);
        proof {
            let q = |e: (Seq<char>, u64)| e.0 != canonical@;
            reveal(Seq::filter);
            assert(mid.drop_last().push(mid.last()) =~= mid);
            assert(mid.filter(q) == mid.drop_last().filter(q).push(mid.last()));
            let es = cache.view_entries();
            assert(es[es.len() - 2] == (raw@, now));
            assert(es[es.len() - 1] == (canonical@, now));
        }
    } else {
        cache.insert(canonical, now);
        proof {
            let es = cache.view_entries();
            assert(es[es.len() - 1] == (canonical@, now));
        }
    }
    true
}

/// The name shown for a file in the activity log.
pub open spec fn shown_name(path: Seq<char>) -> Seq<char> {
    let n = name_part(path);
    if n.len() == 0 || n == seq!['.', '.'] {
        "unknown"@
    } else {
        n
    }
}

/// The name shown for a file in the activity log.
pub fn event_filename(path: &str) -> (r: String)
    ensures
        r@ == shown_name(path@),
{
    let (_parent, name) = split_path(path);
    let nc = crate::text::to_chars(name.as_str());
    let is_dotdot = nc.len() == 2 && nc[0] == '.' && nc[1] == '.';
    proof {
        if is_dotdot {
            assert(nc@ =~= seq!['.', '.']);
        }
        if nc@ == seq!['.', '.'] {
            assert(nc@[0] == '.' && nc@[1] == '.');
        }
    }
    if nc.len() == 0 || is_dotdot {
        String::from_str("unknown")
    } else {
        name
    }
}

/// The renames the watcher carries out for a scanned file: the video to
/// its proposed path, then each subtitle to its own.
pub fn watch_plan(scan: &ScanResult) -> (r: RenamePlan)
    ensures
        r.entries@.len() == scan.subtitles@.len() + 1,
        r.entries@[0].source_path@ == scan.source_path@,
        r.entries@[0].dest_path@ == scan.proposed_path@,
        forall|k: int|
            0 <= k < scan.subtitles@.len() ==> (#[trigger] r.entries@[k + 1]).source_path@
                == scan.subtitles@[k].source_path@ && r.entries@[k + 1].dest_path@
                == scan.subtitles@[k].proposed_path@,
{
    let mut entries: Vec<RenamePlanEntry> = Vec::new();
    entries.push(
        RenamePlanEntry {
            source_path: scan.source_path.clone(),
            dest_path: scan.proposed_path.clone(),
        },
    );
    let mut i: usize = 0;
    while i < scan.subtitles.len()
        invariant
            i <= scan.subtitles@.len(),
            entries@.len() == i + 1,
            entries@[0].source_path@ == scan.source_path@,
            entries@[0].dest_path@ == scan.proposed_path@,
            forall|k: int|
                0 <= k < i ==> (#[trigger] entries@[k + 1]).source_path@
                    == scan.subtitles@[k].source_path@ && entries@[k + 1].dest_path@
                    == scan.subtitles@[k].proposed_path@,
        decreases scan.subtitles.len() - i,
    {
        let s = &scan.subtitles[i];
        entries.push(
            RenamePlanEntry {
                source_path: s.source_path.clone(),
                dest_path: s.proposed_path.clone(),
            },
        );
        i = i + 1;
    }
    RenamePlan { entries }
}

/// The error texts of the failed renames, in order.
pub open spec fn failure_texts(results: Seq<RenameResult>) -> Seq<Seq<char>>
    decreases results.len(),
{
    if results.len() == 0 {
        Seq::<Seq<char>>::empty()
    } else {
        let prev = failure_texts(results.drop_last());
        let r = results.last();
        if !r.success && r.error is Some {
            prev.push(r.error->0@)
        } else {
            prev
        }
    }
}

/// Whether every rename succeeded.
pub open spec fn all_succeeded(results: Seq<RenameResult>) -> bool {
    forall|i: int| 0 <= i < results.len() ==> (#[trigger] results[i]).success
}

/// What an automatic run leaves to do once its renames are done: when all
/// succeeded, the destinations to remember (so that the watcher does not
/// handle its own output again) and that the batch is recorded in the
/// history; otherwise nothing.
pub struct AfterRun {
    /// The destinations to remember, in the order of the results.
    pub remember: Vec<String>,
    /// Whether the batch is recorded in the history.
    pub record: bool,
}

/// The destinations of the results, in order.
pub open spec fn result_dests(results: Seq<RenameResult>) -> Seq<Seq<char>> {
    results.map_values(|r: RenameResult| r.dest_path@)
}

/// What follows the renames of an automatic run.
pub fn after_auto_run(results: &Vec<RenameResult>) -> (r: AfterRun)
    ensures
        r.record == all_succeeded(results@),
        r.record ==> crate::types::strings_view(r.remember@) == result_dests(results@),
        !r.record ==> r.remember@.len() == 0,
{
    let mut remember: Vec<String> = Vec::new();
    let mut i: usize = 0;
    while i < results.len()
        invariant
            i <= results@.len(),
            all_succeeded(results@.subrange(0, i as int)),
            crate::types::strings_view(remember@) == result_dests(results@.subrange(0, i as int)),
        decreases results.len() - i,
    {
        if !results[i].success {
            assert(!all_succeeded(results@)) by {
                assert(!results@[i as int].success);
            }
            return AfterRun { remember: Vec::new(), record: false };
        }
        let ghost before = crate::types::strings_view(remember@);
        remember.push(results[i].dest_path.clone());
        proof {
            assert(results@.subrange(0, i + 1) =~= results@.subrange(0, i as int).push(results@[i as int]));
            assert(crate::types::strings_view(remember@) =~= before.push(results@[i as int].dest_path@));
            assert(result_dests(results@.subrange(0, i + 1)) =~= result_dests(results@.subrange(0, i as int)).push(results@[i as int].dest_path@));
            assert forall|k: int| 0 <= k < i + 1 implies (#[trigger] results@.subrange(0, i + 1)[k]).success by {
                if k < i {
                    assert(results@.subrange(0, i + 1)[k] == results@.subrange(0, i as int)[k]);
                }
            }
        }
        i = i + 1;
    }
    assert(results@.subrange(0, results@.len() as int) =~= results@);
    AfterRun { remember, record: true }
}

/// The event logged for a file: `Error` with `scan failed: ...` when the
/// scan failed.
pub fn scan_failed_event(timestamp: &str, watch_path: &str, filename: &str, error: &MediError) -> (r:
    WatcherEvent)
    ensures
        r.id is None,
        r.timestamp@ == timestamp@,
        r.watch_path@ == watch_path@,
        r.filename@ == filename@,
        r.action == WatcherAction::Error,
        opt_view(r.detail) == Some("scan failed: "@ + error_message(error@)),
        r.batch_id is None,
{
    let msg = error.message();
    let detail = String::from_str("scan failed: ").concat(msg.as_str());
    WatcherEvent {
        id: None,
        timestamp: String::from_str(timestamp),
        watch_path: String::from_str(watch_path),
        filename: String::from_str(filename),
        action: WatcherAction::Error,
        detail: Some(detail),
        batch_id: None,
    }
}

/// The event logged after the renames of an automatic run: `Renamed` with
/// the proposed path and the history batch when all succeeded, else
/// `Error` with `rename failed: ` and the failures' texts joined by `; `.
pub fn rename_event(
    timestamp: &str,
    watch_path: &str,
    filename: &str,
    proposed_path: &str,
    results: &Vec<RenameResult>,
    batch_id: Option<String>,
) -> (r: WatcherEvent)
    ensures
        r.id is None,
        r.timestamp@ == timestamp@,
        r.watch_path@ == watch_path@,
        r.filename@ == filename@,
        all_succeeded(results@) ==> r.action == WatcherAction::Renamed && opt_view(r.detail)
            == Some(proposed_path@) && opt_view(r.batch_id) == opt_view(batch_id),
        !all_succeeded(results@) ==> r.action == WatcherAction::Error && opt_view(r.detail)
            == Some("rename failed: "@ + join_with_seq(failure_texts(results@), "; "@))
            && r.batch_id is None,
{
    let mut all_ok = true;
    let mut errors: Vec<String> = Vec::new();
    let mut i: usize = 0;
    while i < results.len()
        invariant
            i <= results@.len(),
            all_ok == all_succeeded(results@.subrange(0, i as int)),
            crate::types::strings_view(errors@) == failure_texts(results@.subrange(0, i as int)),
        decreases results.len() - i,
    {
        let ghost before = results@.subrange(0, i as int);
        let ghost after = results@.subrange(0, i + 1);
        assert(after.drop_last() =~= before);
        let r = &results[i];
        if !r.success {
            all_ok = false;
            match &r.error {
                Some(e) => {
                    errors.push(e.clone());
                },
                None => {},
            }
        }
        assert(crate::types::strings_view(errors@) =~= failure_texts(after));
        assert(all_ok == all_succeeded(after)) by {
            if !all_ok && all_succeeded(before) {
                assert(after[i as int] == results@[i as int]);
            }
            if !all_succeeded(before) {
                let k = choose|k: int| 0 <= k < before.len() && !(#[trigger] before[k]).success;
                assert(after[k] == before[k]);
            }
        }
        i = i + 1;
    }
    assert(results@.subrange(0, results@.len() as int) =~= results@);
    if all_ok {
        WatcherEvent {
            id: None,
            timestamp: String::from_str(timestamp),
            watch_path: String::from_str(watch_path),
            filename: String::from_str(filename),
            action: WatcherAction::Renamed,
            detail: Some(String::from_str(proposed_path)),
            batch_id,
        }
    } else {
        let joined = crate::text::join_strings(&errors, "; ");
        assert(errors@.map_values(|p: String| p@) =~= crate::types::strings_view(errors@));
        let detail = String::from_str("rename failed: ").concat(joined.as_str());
        WatcherEvent {
            id: None,
            timestamp: String::from_str(timestamp),
            watch_path: String::from_str(watch_path),
            filename: String::from_str(filename),
            action: WatcherAction::Error,
            detail: Some(detail),
            batch_id: None,
        }
    }
}

/// The event logged when a file is queued for review: `Queued` with its
/// proposed path.
pub fn queued_event(timestamp: &str, watch_path: &str, filename: &str, proposed_path: &str) -> (r:
    WatcherEvent)
    ensures
        r.id is None,
        r.timestamp@ == timestamp@,
        r.watch_path@ == watch_path@,
        r.filename@ == filename@,
        r.action == WatcherAction::Queued,
        opt_view(r.detail) == Some(proposed_path@),
        r.batch_id is None,
{
    WatcherEvent {
        id: None,
        timestamp: String::from_str(timestamp),
        watch_path: String::from_str(watch_path),
        filename: String::from_str(filename),
        action: WatcherAction::Queued,
        detail: Some(String::from_str(proposed_path)),
        batch_id: None,
    }
}

/// The review-queue entry for a scanned file: pending, with the scan's
/// paths and the given serialised metadata and subtitles.
pub fn review_entry(
    timestamp: &str,
    watch_path: &str,
    scan: &ScanResult,
    media_info_json: String,
    subtitles_json: String,
) -> (r: ReviewQueueEntry)
    ensures
        r.id is None,
        r.timestamp@ == timestamp@,
        r.watch_path@ == watch_path@,
        r.source_path@ == scan.source_path@,
        r.proposed_path@ == scan.proposed_path@,
        r.media_info_json@ == media_info_json@,
        r.subtitles_json@ == subtitles_json@,
        r.status == ReviewStatus::Pending,
{
    ReviewQueueEntry {
        id: None,
        timestamp: String::from_str(timestamp),
        watch_path: String::from_str(watch_path),
        source_path: scan.source_path.clone(),
        proposed_path: scan.proposed_path.clone(),
        media_info_json,
        subtitles_json,
        status: ReviewStatus::Pending,
    }
}

// ---------------------------------------------------------------------------
// Laws
// ---------------------------------------------------------------------------

/// A path that was just admitted is not admitted again (until it is
/// pruned), under either of its forms.
pub proof fn law_admitted_once(cache: DedupCache, raw: Seq<char>, canonical: Seq<char>, exists: bool)
    requires
        cache.has(canonical) || cache.has(raw),
    ensures
        !should_handle(cache, raw, canonical, exists),
{
}

/// Pruning forgets no path handled less than the window ago.
pub proof fn law_prune_keeps_recent(entries: Seq<(Seq<char>, u64)>, now: u64, i: int)
    requires
        0 <= i < entries.len(),
        age(now, entries[i].1) < DEDUP_WINDOW_MS,
    ensures
        entries.filter(|e: (Seq<char>, u64)| age(now, e.1) < DEDUP_WINDOW_MS).contains(entries[i]),
{
    let pred = |e: (Seq<char>, u64)| age(now, e.1) < DEDUP_WINDOW_MS;
    entries.filter_lemma(pred);
}

} // verus!
