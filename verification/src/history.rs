//! Recorded rename batches and their undo.
//!
//! The history itself lives in a database that the caller keeps; here are
//! the batches recorded for a run and their identifiers, and the rules
//! that decide whether a batch can be undone, what is reported when it
//! cannot, and what each reversed rename yields.

use vstd::prelude::*;
use crate::error::{MediError, MediErrorV};
use crate::text::{cat, join_with_seq};
use crate::types::{
    default_info_view, MediaInfo, MediaInfoV, RenameRecord, RenameResult, RenameResultV,
    UndoEligibility, UndoIssue,
};

verus! {

/// The size of a renamed file now, as far as it can be read.
#[derive(Debug, Clone)]
pub enum DestSize {
    /// Its size in bytes.
    Known(u64),
    /// Its metadata could not be read (with the error's text).
    Unreadable(String),
}

/// What is on disk for one record of a batch.
#[derive(Debug, Clone)]
pub struct UndoProbe {
    /// Whether the renamed file is still at its destination.
    pub dest_exists: bool,
    /// Whether something now occupies its original location.
    pub source_exists: bool,
    /// The renamed file's size.
    pub dest_size: DestSize,
}

/// A record of a batch with what is on disk for it.
#[derive(Debug, Clone)]
pub struct UndoCheck {
    /// The recorded rename.
    pub record: RenameRecord,
    /// The disk's state for it.
    pub probe: UndoProbe,
}

/// Why one record cannot be undone, if it cannot: its destination is
/// gone, its original location is taken, or the file changed size (or its
/// size cannot be read). The first that applies is reported.
pub open spec fn undo_issue_reason(file_size: u64, probe: UndoProbe) -> Option<Seq<char>> {
    if !probe.dest_exists {
        Some("destination file missing"@)
    } else if probe.source_exists {
        Some("source location occupied"@)
    } else {
        match probe.dest_size {
            DestSize::Known(n) => if n != file_size {
                Some("file modified since rename"@)
            } else {
                None
            },
            DestSize::Unreadable(e) => Some("cannot read file metadata: "@ + e@),
        }
    }
}

/// The issues of a batch, in record order, as (destination, reason).
pub open spec fn undo_issues(checks: Seq<UndoCheck>) -> Seq<(Seq<char>, Seq<char>)>
    decreases checks.len(),
{
    if checks.len() == 0 {
        Seq::<(Seq<char>, Seq<char>)>::empty()
    } else {
        let prev = undo_issues(checks.drop_last());
        let c = checks.last();
        match undo_issue_reason(c.record.file_size, c.probe) {
            Some(reason) => prev.push((c.record.dest_path@, reason)),
            None => prev,
        }
    }
}

/// The issues of an eligibility report as (destination, reason).
pub open spec fn issues_view(v: Seq<UndoIssue>) -> Seq<(Seq<char>, Seq<char>)> {
    v.map_values(|i: UndoIssue| (i.dest_path@, i.reason@))
}

/// Why one record cannot be undone, if it cannot.
fn issue_reason(file_size: u64, probe: &UndoProbe) -> (r: Option<String>)
    ensures
        crate::types::opt_view(r) == undo_issue_reason(file_size, *probe),
{
    if !probe.dest_exists {
        return Some(String::from_str("destination file missing"));
    }
    if probe.source_exists {
        return Some(String::from_str("source location occupied"));
    }
    match &probe.dest_size {
        DestSize::Known(n) => {
            if *n != file_size {
                Some(String::from_str("file modified since rename"))
            } else {
                None
            }
        },
        DestSize::Unreadable(e) => Some(cat("cannot read file metadata: ", e.as_str())),
    }
}

/// Checks whether a batch can be undone: it can when every record still
/// has its file at the destination, its original location free, and the
/// size it had when it was renamed. Every record that fails is reported.
pub fn check_undo_eligible(batch_id: &str, checks: &Vec<UndoCheck>) -> (r: UndoEligibility)
    ensures
        r.batch_id@ == batch_id@,
        issues_view(r.ineligible_reasons@) == undo_issues(checks@),
        r.eligible == (undo_issues(checks@).len() == 0),
{
    let mut issues: Vec<UndoIssue> = Vec::new();
    let mut i: usize = 0;
    while i < checks.len()
        invariant
            i <= checks@.len(),
            issues_view(issues@) == undo_issues(checks@.subrange(0, i as int)),
        decreases checks.len() - i,
    {
        assert(checks@.subrange(0, i + 1).drop_last() =~= checks@.subrange(0, i as int));
        let c = &checks[i];
        match issue_reason(c.record.file_size, &c.probe) {
            Some(reason) => {
                issues.push(UndoIssue { dest_path: c.record.dest_path.clone(), reason });
                assert(issues_view(issues@) =~= undo_issues(checks@.subrange(0, i + 1)));
            },
            None => {},
        }
        i = i + 1;
    }
    assert(checks@.subrange(0, checks@.len() as int) =~= checks@);
    let eligible = issues.len() == 0;
    UndoEligibility { eligible, batch_id: String::from_str(batch_id), ineligible_reasons: issues }
}

/// The text of an ineligible batch: `{destination}: {reason}` per issue,
/// joined by `; `.
pub open spec fn ineligible_text(issues: Seq<(Seq<char>, Seq<char>)>) -> Seq<char> {
    join_with_seq(issues.map_values(|i: (Seq<char>, Seq<char>)| i.0 + ": "@ + i.1), "; "@)
}

/// The error an undo of an ineligible batch reports.
pub fn ineligible_error(report: &UndoEligibility) -> (r: MediError)
    ensures
        r@ == (MediErrorV::UndoNotEligible {
            batch_id: report.batch_id@,
            reason: ineligible_text(issues_view(report.ineligible_reasons@)),
        }),
{
    let ghost iv = issues_view(report.ineligible_reasons@);
    let mut parts: Vec<String> = Vec::new();
    let mut i: usize = 0;
    while i < report.ineligible_reasons.len()
        invariant
            i <= report.ineligible_reasons@.len(),
            iv == issues_view(report.ineligible_reasons@),
            parts@.len() == i,
            forall|k: int| 0 <= k < i ==> (#[trigger] parts@[k])@ == iv[k].0 + ": "@ + iv[k].1,
        decreases report.ineligible_reasons.len() - i,
    {
        let issue = &report.ineligible_reasons[i];
        let a = cat(issue.dest_path.as_str(), ": ");
        parts.push(a.concat(issue.reason.as_str()));
        i = i + 1;
    }
    let reason = crate::text::join_strings(&parts, "; ");
    assert(parts@.map_values(|p: String| p@) =~= iv.map_values(
        |i: (Seq<char>, Seq<char>)| i.0 + ": "@ + i.1,
    ));
    MediError::UndoNotEligible { batch_id: report.batch_id.clone(), reason }
}

/// How moving one file back went.
pub enum UndoOutcome {
    /// The original directory could not be created.
    CreateDirFailed(String),
    /// The move back failed (with the error's text).
    MoveFailed(String),
    /// The file is back at its original location.
    Done,
}

/// The order in which a batch is undone: the record renamed last first.
pub fn undo_order(records: Vec<RenameRecord>) -> (r: Vec<RenameRecord>)
    ensures
        r@ == records@.reverse(),
{
    let ghost orig = records@;
    let mut rest = records;
    let mut r: Vec<RenameRecord> = Vec::new();
    while rest.len() > 0
        invariant
            rest@.len() <= orig.len(),
            rest@ == orig.subrange(0, rest@.len() as int),
            r@ == orig.subrange(rest@.len() as int, orig.len() as int).reverse(),
        decreases rest.len(),
    {
        let ghost n = rest@.len();
        let ghost before = rest@;
        let ghost done = r@;
        assert(before[n - 1] == orig[n - 1]);
        match rest.pop() {
            Some(x) => {
                assert(x == orig[n - 1]);
                r.push(x);
                assert(r@ =~= orig.subrange(n - 1, orig.len() as int).reverse()) by {
                    assert forall|k: int| 0 <= k < r@.len() implies r@[k] == orig.subrange(
                        n - 1,
                        orig.len() as int,
                    ).reverse()[k] by {
                        if k < done.len() {
                            assert(r@[k] == done[k]);
                        }
                    }
                }
                assert(rest@ =~= orig.subrange(0, n - 1));
            },
            None => {},
        }
    }
    assert(orig.subrange(0, orig.len() as int) =~= orig);
    r
}

/// The result of undoing one record and whether the record leaves the
/// history: only a record whose file is back at its source does; a failed
/// one stays for a retry.
pub fn undo_step(record: &RenameRecord, outcome: UndoOutcome) -> (r: (RenameResult, bool))
    ensures
        r.1 == r.0.success,
        r.1 == (outcome is Done),
        r.0.source_path@ == record.dest_path@,
        r.0.dest_path@ == record.source_path@,
        match outcome {
            UndoOutcome::CreateDirFailed(e) => crate::types::opt_view(r.0.error)
                == Some("failed to create parent dir: "@ + e@),
            UndoOutcome::MoveFailed(e) => crate::types::opt_view(r.0.error) == Some(e@),
            UndoOutcome::Done => r.0.error is None,
        },
{
    let done = match &outcome {
        UndoOutcome::Done => true,
        _ => false,
    };
    let result = undo_result(record, outcome);
    (result, done)
}

/// The result of undoing one record: a move from its destination back to
/// its source. Only a successful one is removed from the history; a
/// failed one stays for a retry.
pub fn undo_result(record: &RenameRecord, outcome: UndoOutcome) -> (r: RenameResult)
    ensures
        r.source_path@ == record.dest_path@,
        r.dest_path@ == record.source_path@,
        match outcome {
            UndoOutcome::CreateDirFailed(e) => !r.success && crate::types::opt_view(r.error)
                == Some("failed to create parent dir: "@ + e@),
            UndoOutcome::MoveFailed(e) => !r.success && crate::types::opt_view(r.error) == Some(
                e@,
            ),
            UndoOutcome::Done => r.success && r.error is None,
        },
{
    let source_path = record.dest_path.clone();
    let dest_path = record.source_path.clone();
    match outcome {
        UndoOutcome::CreateDirFailed(e) => RenameResult {
            source_path,
            dest_path,
            success: false,
            error: Some(cat("failed to create parent dir: ", e.as_str())),
        },
        UndoOutcome::MoveFailed(e) => RenameResult {
            source_path,
            dest_path,
            success: false,
            error: Some(e),
        },
        UndoOutcome::Done => RenameResult { source_path, dest_path, success: true, error: None },
    }
}

/// The destinations of the records whose undo succeeded, in order.
pub open spec fn undone_dests(records: Seq<RenameRecord>, done: Seq<bool>) -> Seq<Seq<char>>
    decreases done.len(),
{
    if done.len() == 0 {
        Seq::<Seq<char>>::empty()
    } else if done.last() {
        undone_dests(records, done.drop_last()).push(records[done.len() - 1].dest_path@)
    } else {
        undone_dests(records, done.drop_last())
    }
}

/// The error an undo of one record reports, if it failed.
pub open spec fn undo_error(outcome: UndoOutcome) -> Option<Seq<char>> {
    match outcome {
        UndoOutcome::CreateDirFailed(e) => Some("failed to create parent dir: "@ + e@),
        UndoOutcome::MoveFailed(e) => Some(e@),
        UndoOutcome::Done => None,
    }
}

/// A batch being undone, record by record, the record renamed last first.
/// For each record the caller moves the file back and hands in how that
/// went; every record is attempted. The records whose file is back at its
/// source leave the history (their destinations are collected); the others
/// stay for a retry.
pub struct UndoRun {
    order: Vec<RenameRecord>,
    results: Vec<RenameResult>,
    undone: Vec<String>,
    done: Ghost<Seq<bool>>,
}

impl UndoRun {
    /// The records in the order they are undone.
    pub closed spec fn order(&self) -> Seq<RenameRecord> {
        self.order@
    }

    /// The results so far, one per attempted record.
    pub closed spec fn view_results(&self) -> Seq<RenameResultV> {
        self.results@.map_values(|r: RenameResult| r@)
    }

    /// For each attempted record, whether its file is back at its source.
    pub closed spec fn done_flags(&self) -> Seq<bool> {
        self.done@
    }

    /// The destinations of the records that leave the history.
    pub closed spec fn undone(&self) -> Seq<Seq<char>> {
        crate::types::strings_view(self.undone@)
    }

    /// The run's invariant: one result per attempted record, reversing its
    /// rename and succeeding exactly when the file is back; the records
    /// that leave the history are the successful ones.
    pub open spec fn wf(&self) -> bool {
        let n = self.view_results().len();
        &&& self.done_flags().len() == n
        &&& n <= self.order().len()
        &&& forall|k: int|
            0 <= k < n ==> {
                &&& (#[trigger] self.view_results()[k]).source_path == self.order()[k].dest_path@
                &&& self.view_results()[k].dest_path == self.order()[k].source_path@
                &&& self.view_results()[k].success == self.done_flags()[k]
            }
        &&& self.undone() == undone_dests(self.order(), self.done_flags())
    }

    /// Whether every record has been attempted.
    pub open spec fn is_done(&self) -> bool {
        self.view_results().len() == self.order().len()
    }

    /// The undo of a batch whose records are given in the order they were
    /// renamed.
    pub fn new(batch: Vec<RenameRecord>) -> (r: UndoRun)
        ensures
            r.wf(),
            r.order() == batch@.reverse(),
            r.view_results().len() == 0,
    {
        let order = undo_order(batch);
        let r = UndoRun { order, results: Vec::new(), undone: Vec::new(), done: Ghost(Seq::empty()) };
        assert(r.undone() =~= Seq::<Seq<char>>::empty());
        r
    }

    /// The record to undo next, if any is left.
    pub fn current(&self) -> (r: Option<&RenameRecord>)
        requires
            self.wf(),
        ensures
            self.is_done() ==> r is None,
            !self.is_done() ==> r == Some(&self.order()[self.view_results().len() as int]),
    {
        let n = self.results.len();
        if n < self.order.len() {
            Some(&self.order[n])
        } else {
            None
        }
    }

    /// Hands in how undoing the current record went, and returns whether
    /// the record leaves the history. Once every record is attempted
    /// nothing changes.
    pub fn finish(&mut self, outcome: UndoOutcome) -> (r: bool)
        requires
            old(self).wf(),
        ensures
            final(self).wf(),
            final(self).order() == old(self).order(),
            old(self).is_done() ==> !r && final(self).view_results() == old(self).view_results()
                && final(self).done_flags() == old(self).done_flags(),
            !old(self).is_done() ==> {
                let n = old(self).view_results().len() as int;
                &&& r == (outcome is Done)
                &&& final(self).done_flags() == old(self).done_flags().push(r)
                &&& final(self).view_results().len() == n + 1
                &&& final(self).view_results().subrange(0, n) == old(self).view_results()
                &&& final(self).view_results()[n].success == r
                &&& final(self).view_results()[n].error == undo_error(outcome)
            },
    {
        let n = self.results.len();
        if n >= self.order.len() {
            return false;
        }
        let ghost old_results = self.view_results();
        let ghost old_undone = self.undone();
        let ghost old_done = self.done@;
        let (result, leaves) = undo_step(&self.order[n], outcome);
        if leaves {
            self.undone.push(self.order[n].dest_path.clone());
        }
        self.results.push(result);
        proof {
            self.done@ = self.done@.push(leaves);
            assert(self.done@.drop_last() =~= old_done);
            assert(self.view_results() =~= old_results.push(result@));
            if leaves {
                assert(self.undone() =~= old_undone.push(self.order@[n as int].dest_path@));
            } else {
                assert(self.undone() =~= old_undone);
            }
            assert(self.view_results().subrange(0, n as int) =~= old_results);
        }
        leaves
    }

    /// The results, one per record in undo order, and the destinations of
    /// the records that leave the history.
    pub fn into_parts(self) -> (r: (Vec<RenameResult>, Vec<String>))
        ensures
            r.0@.map_values(|x: RenameResult| x@) == self.view_results(),
            crate::types::strings_view(r.1@) == self.undone(),
    {
        (self.results, self.undone)
    }
}

/// A record's destination is among those that leave the history exactly
/// when its undo succeeded, when no two records of the batch share a
/// destination.
proof fn lemma_undone_dests(records: Seq<RenameRecord>, done: Seq<bool>, k: int)
    requires
        done.len() <= records.len(),
        0 <= k < records.len(),
        forall|i: int, j: int|
            0 <= i < j < records.len() ==> (#[trigger] records[i]).dest_path@ != (#[trigger] records[j]).dest_path@,
    ensures
        undone_dests(records, done).contains(records[k].dest_path@) <==> (k < done.len() && done[k]),
    decreases done.len(),
{
    if done.len() > 0 {
        let prev = done.drop_last();
        lemma_undone_dests(records, prev, k);
        let m = done.len() - 1;
        let u = undone_dests(records, prev);
        assert forall|i: int| 0 <= i < prev.len() implies #[trigger] prev[i] == done[i] by {}
        if done.last() {
            let w = u.push(records[m].dest_path@);
            assert(undone_dests(records, done) == w);
            if k == m {
                assert(w[u.len() as int] == records[k].dest_path@);
            } else if w.contains(records[k].dest_path@) {
                let q = choose|q: int| 0 <= q < w.len() && w[q] == records[k].dest_path@;
                if q == u.len() {
                    if k < m {
                        assert(records[k].dest_path@ != records[m].dest_path@);
                    } else {
                        assert(records[m].dest_path@ != records[k].dest_path@);
                    }
                } else {
                    assert(u[q] == records[k].dest_path@);
                }
            } else if u.contains(records[k].dest_path@) {
                let q = choose|q: int| 0 <= q < u.len() && u[q] == records[k].dest_path@;
                assert(w[q] == records[k].dest_path@);
            }
        }
    }
}

/// Undoing a batch reverses it: the `i`-th result moves the file of the
/// `i`-th record from the end back to its source. Once every record has
/// been attempted, the records that leave the history are exactly those
/// whose undo succeeded, so what stays is exactly the records whose undo
/// failed (for a batch in which no two records share a destination).
pub proof fn law_undo_leaves_failed(run: UndoRun, batch: Seq<RenameRecord>)
    requires
        run.wf(),
        run.order() == batch.reverse(),
        run.is_done(),
        forall|i: int, j: int|
            0 <= i < j < batch.len() ==> (#[trigger] batch[i]).dest_path@ != (#[trigger] batch[j]).dest_path@,
    ensures
        run.view_results().len() == batch.len(),
        forall|i: int|
            0 <= i < batch.len() ==> {
                let rec = batch[batch.len() - 1 - i];
                &&& (#[trigger] run.view_results()[i]).source_path == rec.dest_path@
                &&& run.view_results()[i].dest_path == rec.source_path@
            },
        forall|i: int|
            0 <= i < batch.len() ==> (run.undone().contains((#[trigger] batch[i]).dest_path@)
                <==> run.view_results()[batch.len() - 1 - i].success),
{
    let o = run.order();
    let n = batch.len() as int;
    assert forall|i: int, j: int|
        0 <= i < j < o.len() implies (#[trigger] o[i]).dest_path@ != (#[trigger] o[j]).dest_path@ by {
        assert(o[i] == batch[n - 1 - i]);
        assert(o[j] == batch[n - 1 - j]);
    }
    assert forall|i: int|
        0 <= i < n implies (run.undone().contains((#[trigger] batch[i]).dest_path@)
        <==> run.view_results()[n - 1 - i].success) by {
        let k = n - 1 - i;
        assert(o[k] == batch[i]);
        lemma_undone_dests(o, run.done_flags(), k);
        assert(run.view_results()[k].success == run.done_flags()[k]);
    }
    assert forall|i: int| 0 <= i < n implies {
        let rec = batch[n - 1 - i];
        &&& (#[trigger] run.view_results()[i]).source_path == rec.dest_path@
        &&& run.view_results()[i].dest_path == rec.source_path@
    } by {
        assert(o[i] == batch[n - 1 - i]);
    }
}

// ---------------------------------------------------------------------------
// Recording a batch
// ---------------------------------------------------------------------------

/// What the renamed file's metadata says, when it can be read.
#[derive(Debug, Clone)]
pub struct DestMeta {
    /// Size in bytes.
    pub size: u64,
    /// Modification time as RFC 3339 text (empty when unknown).
    pub mtime: String,
}

/// A rename result with the metadata of its destination.
#[derive(Debug, Clone)]
pub struct RecordedRename {
    /// The rename.
    pub result: RenameResult,
    /// The destination's metadata, if it could be read.
    pub meta: Option<DestMeta>,
}

/// A record as plain values: batch, time, source, destination, metadata,
/// size and modification time.
pub open spec fn record_view(r: RenameRecord) -> (Seq<char>, Seq<char>, Seq<char>, Seq<char>, MediaInfoV, u64, Seq<char>) {
    (r.batch_id@, r.timestamp@, r.source_path@, r.dest_path@, r.media_info@, r.file_size, r.file_mtime@)
}

/// The metadata recorded for a source: the last one given for it, else
/// the default.
pub open spec fn info_for(infos: Seq<(String, MediaInfo)>, source: Seq<char>) -> MediaInfoV
    decreases infos.len(),
{
    if infos.len() == 0 {
        default_info_view()
    } else if infos.last().0@ == source {
        infos.last().1@
    } else {
        info_for(infos.drop_last(), source)
    }
}

/// The records of a batch: one per successful rename whose destination's
/// metadata could be read, in order.
pub open spec fn batch_records(
    batch_id: Seq<char>,
    timestamp: Seq<char>,
    renames: Seq<RecordedRename>,
    infos: Seq<(String, MediaInfo)>,
) -> Seq<(Seq<char>, Seq<char>, Seq<char>, Seq<char>, MediaInfoV, u64, Seq<char>)>
    decreases renames.len(),
{
    if renames.len() == 0 {
        Seq::empty()
    } else {
        let prev = batch_records(batch_id, timestamp, renames.drop_last(), infos);
        let x = renames.last();
        match x.meta {
            Some(m) => if x.result.success {
                prev.push(
                    (
                        batch_id,
                        timestamp,
                        x.result.source_path@,
                        x.result.dest_path@,
                        info_for(infos, x.result.source_path@),
                        m.size,
                        m.mtime@,
                    ),
                )
            } else {
                prev
            },
            None => prev,
        }
    }
}

/// The metadata recorded for a source.
fn lookup_info(infos: &Vec<(String, MediaInfo)>, source: &str) -> (r: MediaInfo)
    ensures
        r@ == info_for(infos@, source@),
{
    let sc = crate::text::to_chars(source);
    let mut i: usize = infos.len();
    assert(infos@.subrange(0, infos@.len() as int) =~= infos@);
    while i > 0
        invariant
            i <= infos@.len(),
            sc@ == source@,
            info_for(infos@, source@) == info_for(infos@.subrange(0, i as int), source@),
        decreases i,
    {
        let ghost pre = infos@.subrange(0, i as int);
        assert(pre.drop_last() =~= infos@.subrange(0, i - 1));
        assert(pre.last() == infos@[i - 1]);
        if crate::text::eq_str(&sc, infos[i - 1].0.as_str()) {
            return infos[i - 1].1.duplicate();
        }
        i = i - 1;
    }
    MediaInfo::default()
}

/// The records of a batch: every successful rename whose destination's
/// metadata could be read, with the metadata of its scan (the default when
/// none was given).
pub fn records_for_batch(
    batch_id: &str,
    timestamp: &str,
    renames: &Vec<RecordedRename>,
    infos: &Vec<(String, MediaInfo)>,
) -> (r: Vec<RenameRecord>)
    ensures
        r@.map_values(|x: RenameRecord| record_view(x)) == batch_records(
            batch_id@,
            timestamp@,
            renames@,
            infos@,
        ),
{
    let mut out: Vec<RenameRecord> = Vec::new();
    let mut i: usize = 0;
    while i < renames.len()
        invariant
            i <= renames@.len(),
            out@.map_values(|x: RenameRecord| record_view(x)) == batch_records(
                batch_id@,
                timestamp@,
                renames@.subrange(0, i as int),
                infos@,
            ),
        decreases renames.len() - i,
    {
        assert(renames@.subrange(0, i + 1).drop_last() =~= renames@.subrange(0, i as int));
        assert(renames@.subrange(0, i + 1).last() == renames@[i as int]);
        let x = &renames[i];
        match &x.meta {
            Some(m) => {
                if x.result.success {
                    let info = lookup_info(infos, x.result.source_path.as_str());
                    let ghost before = out@.map_values(|x: RenameRecord| record_view(x));
                    out.push(
                        RenameRecord {
                            batch_id: String::from_str(batch_id),
                            timestamp: String::from_str(timestamp),
                            source_path: x.result.source_path.clone(),
                            dest_path: x.result.dest_path.clone(),
                            media_info: info,
                            file_size: m.size,
                            file_mtime: m.mtime.clone(),
                        },
                    );
                    assert(out@.map_values(|x: RenameRecord| record_view(x)) =~= before.push(
                        record_view(out@.last()),
                    ));
                }
            },
            None => {},
        }
        i = i + 1;
    }
    assert(renames@.subrange(0, renames@.len() as int) =~= renames@);
    out
}

/// Whether a character is a lower-case hexadecimal digit.
pub open spec fn is_lower_hex(c: char) -> bool {
    ('0' <= c && c <= '9') || ('a' <= c && c <= 'f')
}

/// Whether a text is a random (version 4) UUID written as lower-case hex
/// in groups of 8, 4, 4, 4 and 12 digits: hyphens at 8, 13, 18 and 23,
/// the version digit `4` at 14, a variant digit among `8`, `9`, `a`, `b`
/// at 19.
pub open spec fn is_batch_id(s: Seq<char>) -> bool {
    &&& s.len() == 36
    &&& s[8] == '-' && s[13] == '-' && s[18] == '-' && s[23] == '-'
    &&& s[14] == '4'
    &&& (s[19] == '8' || s[19] == '9' || s[19] == 'a' || s[19] == 'b')
    &&& forall|i: int|
        0 <= i < 36 && i != 8 && i != 13 && i != 18 && i != 23 ==> is_lower_hex(#[trigger] s[i])
}

/// `uuid::Uuid::new_v4()` displayed. The source keeps random bits but for
/// the version and variant bits, which it sets (version 4, variant 10),
/// and displays the value hyphenated in lower-case hex. What the random
/// digits are is not stated. The source panics when the system's random
/// source fails.
#[verifier::external_body]
fn random_uuid_text() -> (r: String)
    ensures
        is_batch_id(r@),
{
    uuid::Uuid::new_v4().to_string()
}

/// A fresh identifier for a rename batch: a random UUID.
pub fn generate_batch_id() -> (r: String)
    ensures
        is_batch_id(r@),
{
    random_uuid_text()
}

/// How many renames are recorded: the successful ones whose destination's
/// metadata could be read.
pub open spec fn recorded_count(renames: Seq<RecordedRename>) -> nat
    decreases renames.len(),
{
    if renames.len() == 0 {
        0
    } else {
        let x = renames.last();
        recorded_count(renames.drop_last()) + if x.result.success && x.meta is Some {
            1nat
        } else {
            0nat
        }
    }
}

/// A batch has one record per recorded rename, whatever its identifier.
proof fn lemma_batch_records_len(
    batch_id: Seq<char>,
    timestamp: Seq<char>,
    renames: Seq<RecordedRename>,
    infos: Seq<(String, MediaInfo)>,
)
    ensures
        batch_records(batch_id, timestamp, renames, infos).len() == recorded_count(renames),
    decreases renames.len(),
{
    if renames.len() > 0 {
        lemma_batch_records_len(batch_id, timestamp, renames.drop_last(), infos);
    }
}

/// The batch recorded for a run: a fresh identifier with one record per
/// successful rename whose destination's metadata could be read; when
/// there is none, no record and an empty identifier.
pub fn batch_for_results(
    timestamp: &str,
    renames: &Vec<RecordedRename>,
    infos: &Vec<(String, MediaInfo)>,
) -> (r: (String, Vec<RenameRecord>))
    ensures
        r.1@.len() == recorded_count(renames@),
        recorded_count(renames@) == 0 ==> r.0@ == Seq::<char>::empty(),
        recorded_count(renames@) > 0 ==> is_batch_id(r.0@) && r.1@.map_values(
            |x: RenameRecord| record_view(x),
        ) == batch_records(r.0@, timestamp@, renames@, infos@),
{
    let batch_id = generate_batch_id();
    let records = records_for_batch(batch_id.as_str(), timestamp, renames, infos);
    proof {
        lemma_batch_records_len(batch_id@, timestamp@, renames@, infos@);
        assert(records@.map_values(|x: RenameRecord| record_view(x)).len() == records@.len());
    }
    if records.len() == 0 {
        (String::new(), records)
    } else {
        (batch_id, records)
    }
}

/// A batch can be undone exactly when every one of its records passes
/// all three checks.
pub proof fn law_eligible_iff_all_pass(checks: Seq<UndoCheck>)
    ensures
        (undo_issues(checks).len() == 0) == (forall|k: int|
            0 <= k < checks.len() ==> undo_issue_reason(
                (#[trigger] checks[k]).record.file_size,
                checks[k].probe,
            ) is None),
    decreases checks.len(),
{
    if checks.len() > 0 {
        let init = checks.drop_last();
        law_eligible_iff_all_pass(init);
        if undo_issues(checks).len() == 0 {
            assert forall|k: int| 0 <= k < checks.len() implies undo_issue_reason(
                (#[trigger] checks[k]).record.file_size,
                checks[k].probe,
            ) is None by {
                if k < init.len() {
                    assert(checks[k] == init[k]);
                }
            }
        } else {
            let c = checks.last();
            if undo_issue_reason(c.record.file_size, c.probe) is None {
                assert(undo_issues(init).len() != 0);
                let k = choose|k: int|
                    0 <= k < init.len() && !(undo_issue_reason(
                        (#[trigger] init[k]).record.file_size,
                        init[k].probe,
                    ) is None);
                assert(checks[k] == init[k]);
            }
        }
    }
}

/// A record can be undone exactly when its file is still at the
/// destination, its original location is free, and its size now is known
/// and equal to the size recorded at the rename; a file at its
/// destination, with its source free, whose size is known but differs in
/// either direction is reported as modified.
pub proof fn law_undo_record_ok_iff_unchanged(file_size: u64, probe: UndoProbe)
    ensures
        (undo_issue_reason(file_size, probe) is None) == (probe.dest_exists && !probe.source_exists
            && probe.dest_size == DestSize::Known(file_size)),
        (probe.dest_exists && !probe.source_exists && probe.dest_size is Known
            && probe.dest_size->Known_0 != file_size) ==> undo_issue_reason(file_size, probe) == Some(
            "file modified since rename"@,
        ),
{
}

/// A batch can be undone exactly when every record's file is still at its
/// destination with the size recorded at the rename, and every original
/// location is free.
pub proof fn law_eligible_iff_unchanged(checks: Seq<UndoCheck>)
    ensures
        (undo_issues(checks).len() == 0) == (forall|k: int|
            0 <= k < checks.len() ==> {
                let c = #[trigger] checks[k];
                &&& c.probe.dest_exists
                &&& !c.probe.source_exists
                &&& c.probe.dest_size == DestSize::Known(c.record.file_size)
            }),
{
    law_eligible_iff_all_pass(checks);
    assert forall|k: int| 0 <= k < checks.len() implies (undo_issue_reason(
        (#[trigger] checks[k]).record.file_size,
        checks[k].probe,
    ) is None) == {
        let c = checks[k];
        &&& c.probe.dest_exists
        &&& !c.probe.source_exists
        &&& c.probe.dest_size == DestSize::Known(c.record.file_size)
    } by {
        law_undo_record_ok_iff_unchanged(checks[k].record.file_size, checks[k].probe);
    }
}

} // verus!
