//! Rename plans: validation, conflict handling and the decisions taken
//! while a plan is carried out.
//!
//! The file system is consulted by the caller: a listing of the paths that
//! exist is handed in, and the outcome of every file operation is handed
//! back. A plan is carried out in order and stops at the first entry
//! that fails.

use vstd::prelude::*;
use crate::config::GeneralConfig;
use crate::error::{error_message, MediError, MediErrorV};
use crate::numeric::{decimal, to_decimal};
use crate::paths::{join_path, name_part, parent_part, path_join, split_file_name, split_name, split_path};
use crate::text::{cat, concat, from_chars, to_chars};
use crate::types::{strings_view, ConflictStrategy, RenameOperation, RenameResult, RenameResultV};

verus! {

/// One rename of a plan: source to destination.
#[derive(Debug, Clone)]
pub struct RenamePlanEntry {
    /// Current path.
    pub source_path: String,
    /// Proposed destination.
    pub dest_path: String,
}

/// An ordered list of renames.
#[derive(Debug, Clone)]
pub struct RenamePlan {
    /// The renames, in order.
    pub entries: Vec<RenamePlanEntry>,
}

/// How plans are carried out.
#[derive(Debug, Clone, Copy, PartialEq, Eq, Structural)]
pub struct Renamer {
    /// Move or copy.
    pub operation: RenameOperation,
    /// What to do when the destination exists.
    pub conflict_strategy: ConflictStrategy,
    /// Whether missing destination directories are created.
    pub create_directories: bool,
}

/// Whether `p` is one of the listed existing paths.
pub open spec fn exists_in(existing: Seq<String>, p: Seq<char>) -> bool {
    strings_view(existing).contains(p)
}

/// Stem and extension of a destination's file name; a path without a file
/// name uses the stem `file`.
pub open spec fn dest_stem_ext(dest: Seq<char>) -> (Seq<char>, Option<Seq<char>>) {
    let name = name_part(dest);
    if name.len() == 0 || name == seq!['.', '.'] {
        ("file"@, None)
    } else {
        split_name(name)
    }
}

/// The `i`-th alternative to a destination: `{stem} ({i}).{ext}` in the
/// same directory (`{stem} ({i})` without an extension).
pub open spec fn suffix_candidate(dest: Seq<char>, i: nat) -> Seq<char> {
    let se = dest_stem_ext(dest);
    let base = se.0 + " ("@ + decimal(i) + ")"@;
    path_join(
        parent_part(dest),
        match se.1 {
            Some(e) => base + "."@ + e,
            None => base,
        },
    )
}

/// The first alternative, from the `i`-th up to the 99th, that is not
/// among the taken paths.
pub open spec fn first_free_suffix(dest: Seq<char>, taken: Seq<Seq<char>>, i: nat) -> Option<
    Seq<char>,
>
    decreases 100 - i,
{
    if i >= 100 {
        None
    } else if !taken.contains(suffix_candidate(dest, i)) {
        Some(suffix_candidate(dest, i))
    } else {
        first_free_suffix(dest, taken, i + 1)
    }
}

/// Whether `s` is the string `p`.
pub(crate) fn strings_contain(existing: &Vec<String>, p: &str) -> (r: bool)
    ensures
        r == exists_in(existing@, p@),
{
    let pc = to_chars(p);
    let mut i: usize = 0;
    while i < existing.len()
        invariant
            i <= existing@.len(),
            pc@ == p@,
            forall|k: int| 0 <= k < i ==> existing@[k]@ != p@,
        decreases existing.len() - i,
    {
        let e = to_chars(existing[i].as_str());
        if crate::text::chars_eq(&e, &pc) {
            assert(strings_view(existing@)[i as int] == p@);
            return true;
        }
        i = i + 1;
    }
    assert(!strings_view(existing@).contains(p@)) by {
        if strings_view(existing@).contains(p@) {
            let k = choose|k: int| 0 <= k < strings_view(existing@).len() && strings_view(existing@)[k] == p@;
            assert(existing@[k]@ == p@);
        }
    }
    false
}

/// The `i`-th alternative to a destination.
fn candidate(parent: &str, stem: &[char], ext: &Option<String>, i: u64) -> (r: String)
    ensures
        r@ == path_join(
            parent@,
            match crate::types::opt_view(*ext) {
                Some(e) => stem@ + " ("@ + decimal(i as nat) + ")"@ + "."@ + e,
                None => stem@ + " ("@ + decimal(i as nat) + ")"@,
            },
        ),
{
    let open = to_chars(" (");
    let close = to_chars(")");
    let digits = to_decimal(i);
    let a = concat(stem, &open);
    let b = concat(&a, &digits);
    let base = concat(&b, &close);
    let name = match ext {
        Some(e) => {
            let dot = to_chars(".");
            let ec = to_chars(e.as_str());
            let c = concat(&base, &dot);
            concat(&c, &ec)
        },
        None => base,
    };
    let n = from_chars(&name);
    join_path(parent, n.as_str())
}

/// Finds the first of `Movie (1).mkv` ... `Movie (99).mkv` next to the
/// destination that is not among the existing paths; when all 99 exist the
/// result is `ConflictResolutionExhausted` for the destination.
pub fn resolve_numeric_suffix(dest: &str, existing: &Vec<String>) -> (r: Result<String, MediError>)
    ensures
        match r {
            Ok(p) => first_free_suffix(dest@, strings_view(existing@), 1) == Some(p@),
            Err(e) => first_free_suffix(dest@, strings_view(existing@), 1) is None && e@
                == (MediErrorV::ConflictResolutionExhausted { path: dest@ }),
        },
{
    let (parent, name) = split_path(dest);
    let nc = to_chars(name.as_str());
    let no_name = nc.len() == 0 || (nc.len() == 2 && nc[0] == '.' && nc[1] == '.');
    proof {
        if no_name && nc@.len() == 2 {
            assert(nc@ =~= seq!['.', '.']);
        }
        if nc@ == seq!['.', '.'] {
            assert(nc@[0] == '.' && nc@[1] == '.');
        }
    }
    let (stem, ext): (Vec<char>, Option<String>) = if no_name {
        (to_chars("file"), None)
    } else {
        let (s, e) = split_file_name(name.as_str());
        (to_chars(s.as_str()), e)
    };
    assert(stem@ == dest_stem_ext(dest@).0);
    assert(crate::types::opt_view(ext) == dest_stem_ext(dest@).1);
    let mut i: u64 = 1;
    while i <= 99
        invariant
            1 <= i <= 100,
            parent@ == parent_part(dest@),
            stem@ == dest_stem_ext(dest@).0,
            crate::types::opt_view(ext) == dest_stem_ext(dest@).1,
            first_free_suffix(dest@, strings_view(existing@), 1) == first_free_suffix(
                dest@,
                strings_view(existing@),
                i as nat,
            ),
        decreases 100 - i,
    {
        let c = candidate(parent.as_str(), &stem, &ext, i);
        assert(c@ == suffix_candidate(dest@, i as nat));
        if !strings_contain(existing, c.as_str()) {
            return Ok(c);
        }
        i = i + 1;
    }
    Err(MediError::ConflictResolutionExhausted { path: String::from_str(dest) })
}

// ---------------------------------------------------------------------------
// Dry runs
// ---------------------------------------------------------------------------

/// The message of a skipped rename.
pub open spec fn skipped_message() -> Seq<char> {
    "skipped: target already exists"@
}

/// A successful result.
pub open spec fn ok_result(source: Seq<char>, dest: Seq<char>) -> RenameResultV {
    RenameResultV { source_path: source, dest_path: dest, success: true, error: None }
}

/// A failed result.
pub open spec fn failed_result(source: Seq<char>, dest: Seq<char>, message: Seq<char>) -> RenameResultV {
    RenameResultV { source_path: source, dest_path: dest, success: false, error: Some(message) }
}

/// One step of a dry run: the result for an entry and the destinations
/// taken so far. A destination conflicts when it exists or an earlier entry
/// of the plan takes it.
pub open spec fn dry_run_step(
    strategy: ConflictStrategy,
    source: Seq<char>,
    dest: Seq<char>,
    existing: Seq<String>,
    seen: Seq<Seq<char>>,
) -> (RenameResultV, Seq<Seq<char>>) {
    if exists_in(existing, dest) || seen.contains(dest) {
        match strategy {
            ConflictStrategy::Skip => (failed_result(source, dest, skipped_message()), seen),
            ConflictStrategy::Overwrite => (ok_result(source, dest), seen.push(dest)),
            ConflictStrategy::NumericSuffix => match first_free_suffix(
                dest,
                strings_view(existing) + seen,
                1,
            ) {
                Some(p) => (ok_result(source, p), seen.push(p)),
                None => (
                    failed_result(
                        source,
                        dest,
                        error_message(MediErrorV::ConflictResolutionExhausted { path: dest }),
                    ),
                    seen,
                ),
            },
        }
    } else {
        (ok_result(source, dest), seen.push(dest))
    }
}

/// The result an entry comes to when every path in `taken` is occupied
/// and its transfer, if it makes one, succeeds: a free destination is
/// taken as is; an occupied one is skipped, overwritten, or replaced by the
/// first free numeric suffix.
pub open spec fn settled_result(
    strategy: ConflictStrategy,
    source: Seq<char>,
    dest: Seq<char>,
    taken: Seq<Seq<char>>,
) -> RenameResultV {
    if taken.contains(dest) {
        match strategy {
            ConflictStrategy::Skip => failed_result(source, dest, skipped_message()),
            ConflictStrategy::Overwrite => ok_result(source, dest),
            ConflictStrategy::NumericSuffix => match first_free_suffix(dest, taken, 1) {
                Some(p) => ok_result(source, p),
                None => failed_result(
                    source,
                    dest,
                    error_message(MediErrorV::ConflictResolutionExhausted { path: dest }),
                ),
            },
        }
    } else {
        ok_result(source, dest)
    }
}

/// The results of a dry run over the first entries of a plan, with the
/// destinations they take.
pub open spec fn dry_run_spec(
    strategy: ConflictStrategy,
    entries: Seq<RenamePlanEntry>,
    existing: Seq<String>,
) -> (Seq<RenameResultV>, Seq<Seq<char>>)
    decreases entries.len(),
{
    if entries.len() == 0 {
        (Seq::<RenameResultV>::empty(), Seq::<Seq<char>>::empty())
    } else {
        let prev = dry_run_spec(strategy, entries.drop_last(), existing);
        let e = entries.last();
        let step = dry_run_step(strategy, e.source_path@, e.dest_path@, existing, prev.1);
        (prev.0.push(step.0), step.1)
    }
}

/// A dry run gives one result per entry.
proof fn lemma_dry_run_len(strategy: ConflictStrategy, entries: Seq<RenamePlanEntry>, existing: Seq<String>)
    ensures
        dry_run_spec(strategy, entries, existing).0.len() == entries.len(),
    decreases entries.len(),
{
    if entries.len() > 0 {
        lemma_dry_run_len(strategy, entries.drop_last(), existing);
    }
}

/// The paths of `a` followed by those of `b`.
fn joined_paths(a: &Vec<String>, b: &Vec<String>) -> (r: Vec<String>)
    ensures
        strings_view(r@) == strings_view(a@) + strings_view(b@),
{
    let mut r: Vec<String> = Vec::new();
    let mut i: usize = 0;
    while i < a.len()
        invariant
            i <= a@.len(),
            strings_view(r@) == strings_view(a@).subrange(0, i as int),
        decreases a.len() - i,
    {
        let c = a[i].clone();
        let ghost before = r@;
        r.push(c);
        assert(r@ == before.push(a@[i as int]));
        assert(strings_view(r@) =~= strings_view(before).push(a@[i as int]@));
        assert(strings_view(r@) =~= strings_view(a@).subrange(0, i + 1));
        i = i + 1;
    }
    let mut j: usize = 0;
    while j < b.len()
        invariant
            j <= b@.len(),
            strings_view(r@) == strings_view(a@) + strings_view(b@).subrange(0, j as int),
        decreases b.len() - j,
    {
        let c = b[j].clone();
        let ghost before = r@;
        r.push(c);
        assert(r@ == before.push(b@[j as int]));
        assert(strings_view(r@) =~= strings_view(before).push(b@[j as int]@));
        assert(strings_view(r@) =~= strings_view(a@) + strings_view(b@).subrange(0, j + 1));
        j = j + 1;
    }
    assert(strings_view(b@).subrange(0, b@.len() as int) =~= strings_view(b@));
    assert(strings_view(a@).subrange(0, a@.len() as int) =~= strings_view(a@));
    r
}

/// Whether a path is among the taken destinations.
fn seen_contains(seen: &Vec<String>, p: &str) -> (r: bool)
    ensures
        r == strings_view(seen@).contains(p@),
{
    strings_contain(seen, p)
}

impl Renamer {
    /// A renamer with explicit settings.
    pub fn new(
        operation: RenameOperation,
        conflict_strategy: ConflictStrategy,
        create_directories: bool,
    ) -> (r: Renamer)
        ensures
            r.operation == operation,
            r.conflict_strategy == conflict_strategy,
            r.create_directories == create_directories,
    {
        Renamer { operation, conflict_strategy, create_directories }
    }

    /// A renamer with the settings of the general configuration.
    pub fn from_config(config: &GeneralConfig) -> (r: Renamer)
        ensures
            r.operation == config.operation,
            r.conflict_strategy == config.conflict_strategy,
            r.create_directories == config.create_directories,
    {
        Renamer::new(config.operation, config.conflict_strategy, config.create_directories)
    }

    /// Validates a plan without touching anything: for each entry, in
    /// order, what would happen given the paths that exist. A destination
    /// that exists or that an earlier entry takes is a conflict, handled by
    /// the conflict strategy.
    pub fn dry_run(&self, plan: &RenamePlan, existing: &Vec<String>) -> (r: Vec<RenameResult>)
        ensures
            r@.len() == plan.entries@.len(),
            forall|k: int|
                0 <= k < r@.len() ==> (#[trigger] r@[k])@ == dry_run_spec(
                    self.conflict_strategy,
                    plan.entries@,
                    existing@,
                ).0[k],
    {
        let mut results: Vec<RenameResult> = Vec::new();
        let mut seen: Vec<String> = Vec::new();
        let mut i: usize = 0;
        while i < plan.entries.len()
            invariant
                i <= plan.entries@.len(),
                results@.len() == i,
                forall|k: int|
                    0 <= k < i ==> (#[trigger] results@[k])@ == dry_run_spec(
                        self.conflict_strategy,
                        plan.entries@.subrange(0, i as int),
                        existing@,
                    ).0[k],
                strings_view(seen@) == dry_run_spec(
                    self.conflict_strategy,
                    plan.entries@.subrange(0, i as int),
                    existing@,
                ).1,
            decreases plan.entries.len() - i,
        {
            let ghost before = plan.entries@.subrange(0, i as int);
            let ghost after = plan.entries@.subrange(0, i + 1);
            assert(after.drop_last() =~= before);
            let entry = &plan.entries[i];
            let ghost step = dry_run_step(
                self.conflict_strategy,
                entry.source_path@,
                entry.dest_path@,
                existing@,
                strings_view(seen@),
            );
            let conflict = strings_contain(existing, entry.dest_path.as_str()) || seen_contains(
                &seen,
                entry.dest_path.as_str(),
            );
            let ghost seen_before = seen@;
            let result = if conflict {
                match self.conflict_strategy {
                    ConflictStrategy::Skip => RenameResult {
                        source_path: entry.source_path.clone(),
                        dest_path: entry.dest_path.clone(),
                        success: false,
                        error: Some(String::from_str("skipped: target already exists")),
                    },
                    ConflictStrategy::Overwrite => {
                        seen.push(entry.dest_path.clone());
                        RenameResult {
                            source_path: entry.source_path.clone(),
                            dest_path: entry.dest_path.clone(),
                            success: true,
                            error: None,
                        }
                    },
                    ConflictStrategy::NumericSuffix => {
                        let taken = joined_paths(existing, &seen);
                        match resolve_numeric_suffix(entry.dest_path.as_str(), &taken) {
                            Ok(suffixed) => {
                                seen.push(suffixed.clone());
                                RenameResult {
                                    source_path: entry.source_path.clone(),
                                    dest_path: suffixed,
                                    success: true,
                                    error: None,
                                }
                            },
                            Err(e) => RenameResult {
                                source_path: entry.source_path.clone(),
                                dest_path: entry.dest_path.clone(),
                                success: false,
                                error: Some(e.message()),
                            },
                        }
                    },
                }
            } else {
                seen.push(entry.dest_path.clone());
                RenameResult {
                    source_path: entry.source_path.clone(),
                    dest_path: entry.dest_path.clone(),
                    success: true,
                    error: None,
                }
            };
            assert(result@ == step.0);
            assert(strings_view(seen@) =~= step.1);
            let ghost prev_spec = dry_run_spec(self.conflict_strategy, before, existing@);
            proof {
                lemma_dry_run_len(self.conflict_strategy, before, existing@);
            }
            assert(after.last() == *entry);
            assert(dry_run_spec(self.conflict_strategy, after, existing@).0 == prev_spec.0.push(
                step.0,
            ));
            let ghost old_results = results@;
            results.push(result);
            assert forall|k: int| 0 <= k < i + 1 implies (#[trigger] results@[k])@ == dry_run_spec(
                self.conflict_strategy,
                after,
                existing@,
            ).0[k] by {
                if k < i {
                    assert(results@[k] == old_results[k]);
                }
            }
            i = i + 1;
        }
        assert(plan.entries@.subrange(0, plan.entries@.len() as int) =~= plan.entries@);
        results
    }
}

// ---------------------------------------------------------------------------
// Carrying out a plan
// ---------------------------------------------------------------------------

/// What to do for one entry of a plan once it is known which paths exist.
pub enum EntryStep {
    /// Record this result and go on with the next entry (a skipped
    /// conflict, or no free numeric suffix).
    Record(RenameResult),
    /// Transfer the file to `dest`: first remove the existing target when
    /// `remove_existing` is set, then create `create_dir` when one is
    /// given, then move or copy.
    Transfer { dest: String, remove_existing: bool, create_dir: Option<String> },
}

/// How the file operations of a transfer went.
pub enum TransferOutcome {
    /// The existing target could not be removed (with the error's text).
    RemoveFailed(String),
    /// The target directory could not be created.
    CreateDirFailed(String),
    /// The move or copy itself failed.
    Failed(String),
    /// After a copy, the size of a file could not be read.
    VerifyFailed(String),
    /// After a copy the sizes differ; the copy has been removed.
    SizeMismatch,
    /// The file is at its destination.
    Done,
}

/// The result of a transfer of `entry` to `dest` that ended as `outcome`.
pub open spec fn transferred(entry: RenamePlanEntry, dest: Seq<char>, outcome: TransferOutcome) -> RenameResultV {
    let src = entry.source_path@;
    match outcome {
        TransferOutcome::RemoveFailed(e) => failed_result(src, entry.dest_path@, "overwrite failed: "@ + e@),
        TransferOutcome::CreateDirFailed(e) => failed_result(src, dest, "failed to create directory: "@ + e@),
        TransferOutcome::Failed(e) => failed_result(src, dest, e@),
        TransferOutcome::VerifyFailed(e) => failed_result(src, dest, "copy verify failed: "@ + e@),
        TransferOutcome::SizeMismatch => failed_result(src, dest, "copy verification failed: size mismatch"@),
        TransferOutcome::Done => ok_result(src, dest),
    }
}

/// The directory a transfer to `dest` creates first, if any.
pub open spec fn dir_to_create(create_directories: bool, dest: Seq<char>) -> Option<Seq<char>> {
    if create_directories && parent_part(dest).len() > 0 {
        Some(parent_part(dest))
    } else {
        None
    }
}

/// Whether a step transfers to `dest`, removing the target first or not.
pub open spec fn transfers_to(
    r: EntryStep,
    dest: Seq<char>,
    remove: bool,
    create_directories: bool,
) -> bool {
    match r {
        EntryStep::Transfer { dest: d, remove_existing, create_dir } => d@ == dest
            && remove_existing == remove && crate::types::opt_view(create_dir) == dir_to_create(
            create_directories,
            dest,
        ),
        EntryStep::Record(_) => false,
    }
}

/// Whether a step records this result.
pub open spec fn records(r: EntryStep, result: RenameResultV) -> bool {
    match r {
        EntryStep::Record(res) => res@ == result,
        EntryStep::Transfer { .. } => false,
    }
}

/// The directory to create before a transfer.
fn dir_for(create_directories: bool, dest: &str) -> (r: Option<String>)
    ensures
        crate::types::opt_view(r) == dir_to_create(create_directories, dest@),
{
    if !create_directories {
        return None;
    }
    let (parent, _name) = split_path(dest);
    if parent.as_str().is_empty() {
        None
    } else {
        Some(parent)
    }
}

impl Renamer {
    /// What [`Renamer::plan_entry`] decides for an entry, given the paths
    /// that exist: a free destination is taken as is; an existing one is
    /// skipped, overwritten, or replaced by the first free numeric suffix.
    pub open spec fn decides(self, entry: RenamePlanEntry, existing: Seq<String>, r: EntryStep) -> bool {
        let src = entry.source_path@;
        let dest = entry.dest_path@;
        let settled = settled_result(self.conflict_strategy, src, dest, strings_view(existing));
        &&& !exists_in(existing, dest) ==> transfers_to(r, dest, false, self.create_directories)
        &&& exists_in(existing, dest) ==> match self.conflict_strategy {
            ConflictStrategy::Skip => records(r, failed_result(src, dest, skipped_message())),
            ConflictStrategy::Overwrite => transfers_to(r, dest, true, self.create_directories),
            ConflictStrategy::NumericSuffix => match first_free_suffix(dest, strings_view(existing), 1) {
                Some(p) => transfers_to(r, p, false, self.create_directories),
                None => records(
                    r,
                    failed_result(
                        src,
                        dest,
                        error_message(MediErrorV::ConflictResolutionExhausted { path: dest }),
                    ),
                ),
            },
        }
        &&& match r {
            EntryStep::Record(res) => res@ == settled,
            EntryStep::Transfer { dest: d, .. } => settled == ok_result(src, d@),
        }
    }

    /// Decides what to do for one entry, given the paths that exist now, as
    /// the conflict strategy says.
    pub fn plan_entry(&self, entry: &RenamePlanEntry, existing: &Vec<String>) -> (r: EntryStep)
        ensures
            self.decides(*entry, existing@, r),
    {
        if !strings_contain(existing, entry.dest_path.as_str()) {
            return EntryStep::Transfer {
                dest: entry.dest_path.clone(),
                remove_existing: false,
                create_dir: dir_for(self.create_directories, entry.dest_path.as_str()),
            };
        }
        match self.conflict_strategy {
            ConflictStrategy::Skip => EntryStep::Record(
                RenameResult {
                    source_path: entry.source_path.clone(),
                    dest_path: entry.dest_path.clone(),
                    success: false,
                    error: Some(String::from_str("skipped: target already exists")),
                },
            ),
            ConflictStrategy::Overwrite => EntryStep::Transfer {
                dest: entry.dest_path.clone(),
                remove_existing: true,
                create_dir: dir_for(self.create_directories, entry.dest_path.as_str()),
            },
            ConflictStrategy::NumericSuffix => {
                match resolve_numeric_suffix(entry.dest_path.as_str(), existing) {
                    Ok(suffixed) => {
                        let create_dir = dir_for(self.create_directories, suffixed.as_str());
                        EntryStep::Transfer { dest: suffixed, remove_existing: false, create_dir }
                    },
                    Err(e) => EntryStep::Record(
                        RenameResult {
                            source_path: entry.source_path.clone(),
                            dest_path: entry.dest_path.clone(),
                            success: false,
                            error: Some(e.message()),
                        },
                    ),
                }
            },
        }
    }

    /// The result of a transfer of `entry` to `dest`, and whether it
    /// succeeded.
    pub fn transfer_result(&self, entry: &RenamePlanEntry, dest: &str, outcome: TransferOutcome) -> (r: (
        RenameResult,
        bool,
    ))
        ensures
            r.1 == r.0.success,
            r.0@ == transferred(*entry, dest@, outcome),
    {
        let source_path = entry.source_path.clone();
        let result = match outcome {
            TransferOutcome::RemoveFailed(e) => RenameResult {
                source_path,
                dest_path: entry.dest_path.clone(),
                success: false,
                error: Some(cat("overwrite failed: ", e.as_str())),
            },
            TransferOutcome::CreateDirFailed(e) => RenameResult {
                source_path,
                dest_path: String::from_str(dest),
                success: false,
                error: Some(cat("failed to create directory: ", e.as_str())),
            },
            TransferOutcome::Failed(e) => RenameResult {
                source_path,
                dest_path: String::from_str(dest),
                success: false,
                error: Some(e),
            },
            TransferOutcome::VerifyFailed(e) => RenameResult {
                source_path,
                dest_path: String::from_str(dest),
                success: false,
                error: Some(cat("copy verify failed: ", e.as_str())),
            },
            TransferOutcome::SizeMismatch => RenameResult {
                source_path,
                dest_path: String::from_str(dest),
                success: false,
                error: Some(String::from_str("copy verification failed: size mismatch")),
            },
            TransferOutcome::Done => RenameResult {
                source_path,
                dest_path: String::from_str(dest),
                success: true,
                error: None,
            },
        };
        let go_on = result.success;
        (result, go_on)
    }
}

/// The views of a list of results.
pub open spec fn rename_results_view(v: Seq<RenameResult>) -> Seq<RenameResultV> {
    v.map_values(|r: RenameResult| r@)
}

/// A plan being carried out, entry by entry. For each entry the caller
/// lists the paths that exist now and receives the step to take; after a
/// transfer it hands back how the file operations went. The run stops at
/// the first entry that does not succeed, whether its conflict was skipped,
/// no numeric suffix was free, or its transfer failed.
pub struct RenameRun {
    renamer: Renamer,
    plan: RenamePlan,
    results: Vec<RenameResult>,
    pending: Option<String>,
    observed: Ghost<Seq<Seq<Seq<char>>>>,
}

impl RenameRun {
    /// The renamer that decides the steps.
    pub closed spec fn renamer_of(&self) -> Renamer {
        self.renamer
    }

    /// The entries of the plan.
    pub closed spec fn entries(&self) -> Seq<RenamePlanEntry> {
        self.plan.entries@
    }

    /// The results so far, one per finished entry, in order.
    pub closed spec fn view_results(&self) -> Seq<RenameResultV> {
        rename_results_view(self.results@)
    }

    /// The destination of the transfer that is awaited, if any.
    pub closed spec fn pending_dest(&self) -> Option<Seq<char>> {
        crate::types::opt_view(self.pending)
    }

    /// For each started entry, the paths that existed when its step was
    /// decided.
    pub closed spec fn observed(&self) -> Seq<Seq<Seq<char>>> {
        self.observed@
    }

    /// What the `k`-th entry comes to if its transfer, when it makes one,
    /// succeeds.
    pub open spec fn planned(&self, k: int) -> RenameResultV {
        let e = self.entries()[k];
        settled_result(
            self.renamer_of().conflict_strategy,
            e.source_path@,
            e.dest_path@,
            self.observed()[k],
        )
    }

    /// Whether nothing is left to do: no transfer is awaited and either
    /// every entry has a result or the last result is a failure.
    pub open spec fn is_done(&self) -> bool {
        let rs = self.view_results();
        &&& self.pending_dest() is None
        &&& rs.len() == self.entries().len() || (rs.len() > 0 && !rs.last().success)
    }

    /// The run's invariant: the entries started are those with a result
    /// plus the one whose transfer is awaited; a result either is what its
    /// entry was planned to come to or is a failed transfer; only the last
    /// result may be a failure, and nothing is started after one.
    pub open spec fn wf(&self) -> bool {
        let rs = self.view_results();
        let n = rs.len();
        &&& self.observed().len() <= self.entries().len()
        &&& self.observed().len() == n + (if self.pending_dest() is Some { 1int } else { 0int })
        &&& forall|k: int|
            0 <= k < n ==> ((#[trigger] rs[k]) == self.planned(k) || (!rs[k].success
                && rs[k].source_path == self.entries()[k].source_path@))
        &&& forall|k: int| 0 <= k < n - 1 ==> (#[trigger] rs[k]).success
        &&& (self.pending_dest() matches Some(d) ==> {
            &&& self.planned(n as int) == ok_result(self.entries()[n as int].source_path@, d)
            &&& (n == 0 || rs[n - 1].success)
        })
    }

    /// A run of `plan` by `renamer` that has not started.
    pub fn new(renamer: Renamer, plan: RenamePlan) -> (r: RenameRun)
        ensures
            r.wf(),
            r.renamer_of() == renamer,
            r.entries() == plan.entries@,
            r.view_results() == Seq::<RenameResultV>::empty(),
            r.pending_dest() is None,
            r.observed() == Seq::<Seq<Seq<char>>>::empty(),
    {
        let r = RenameRun {
            renamer,
            plan,
            results: Vec::new(),
            pending: None,
            observed: Ghost(Seq::empty()),
        };
        assert(r.view_results() =~= Seq::<RenameResultV>::empty());
        r
    }

    /// The number of entries with a result.
    pub fn position(&self) -> (r: usize)
        ensures
            r == self.view_results().len(),
    {
        self.results.len()
    }

    /// Whether nothing is left to do.
    pub fn finished(&self) -> (r: bool)
        requires
            self.wf(),
        ensures
            r == self.is_done(),
    {
        let n = self.results.len();
        if self.pending.is_some() {
            return false;
        }
        if n == self.plan.entries.len() {
            return true;
        }
        n > 0 && !self.results[n - 1].success
    }

    /// Decides the step for the next entry, given the paths that exist now.
    /// A step that records a result (a skipped conflict, no free numeric
    /// suffix) finishes the entry; a transfer is awaited until
    /// [`RenameRun::complete`]. Nothing is decided while a transfer is
    /// awaited or once the run is done.
    pub fn next_step(&mut self, existing: &Vec<String>) -> (r: Option<EntryStep>)
        requires
            old(self).wf(),
        ensures
            final(self).wf(),
            final(self).renamer_of() == old(self).renamer_of(),
            final(self).entries() == old(self).entries(),
            (old(self).pending_dest() is Some || old(self).is_done()) ==> {
                &&& r is None
                &&& final(self).view_results() == old(self).view_results()
                &&& final(self).pending_dest() == old(self).pending_dest()
                &&& final(self).observed() == old(self).observed()
            },
            !(old(self).pending_dest() is Some || old(self).is_done()) ==> {
                let n = old(self).view_results().len() as int;
                &&& r matches Some(step)
                &&& old(self).renamer_of().decides(old(self).entries()[n], existing@, step)
                &&& final(self).observed() == old(self).observed().push(strings_view(existing@))
                &&& match step {
                    EntryStep::Record(res) => {
                        &&& final(self).view_results() == old(self).view_results().push(res@)
                        &&& final(self).pending_dest() is None
                    },
                    EntryStep::Transfer { dest, .. } => {
                        &&& final(self).view_results() == old(self).view_results()
                        &&& final(self).pending_dest() == Some(dest@)
                    },
                }
            },
    {
        if self.pending.is_some() || self.finished() {
            return None;
        }
        let n = self.results.len();
        let ghost old_results = self.view_results();
        let step = self.renamer.plan_entry(&self.plan.entries[n], existing);
        proof {
            self.observed@ = self.observed@.push(strings_view(existing@));
        }
        match &step {
            EntryStep::Record(res) => {
                self.results.push(res.duplicate());
                assert(self.view_results() =~= old_results.push(res@));
            },
            EntryStep::Transfer { dest, .. } => {
                self.pending = Some(dest.clone());
            },
        }
        Some(step)
    }

    /// Hands back how the awaited transfer went, which finishes its entry.
    /// Without an awaited transfer nothing changes.
    pub fn complete(&mut self, outcome: TransferOutcome)
        requires
            old(self).wf(),
        ensures
            final(self).wf(),
            final(self).renamer_of() == old(self).renamer_of(),
            final(self).entries() == old(self).entries(),
            final(self).observed() == old(self).observed(),
            final(self).pending_dest() is None,
            old(self).pending_dest() matches Some(d) ==> final(self).view_results()
                == old(self).view_results().push(
                transferred(old(self).entries()[old(self).view_results().len() as int], d, outcome),
            ),
            old(self).pending_dest() is None ==> final(self).view_results() == old(self).view_results(),
    {
        match self.pending.take() {
            Some(dest) => {
                let n = self.results.len();
                let ghost old_results = self.view_results();
                let (res, _) = self.renamer.transfer_result(&self.plan.entries[n], dest.as_str(), outcome);
                self.results.push(res);
                assert(self.view_results() =~= old_results.push(res@));
            },
            None => {},
        }
    }

    /// The results of the run, one per finished entry, in order.
    pub fn into_results(self) -> (r: Vec<RenameResult>)
        ensures
            rename_results_view(r@) == self.view_results(),
    {
        self.results
    }
}

// ---------------------------------------------------------------------------
// Laws
// ---------------------------------------------------------------------------

/// A numeric suffix is only ever chosen among paths that do not exist.
pub proof fn law_suffix_is_free(dest: Seq<char>, taken: Seq<Seq<char>>, i: nat)
    ensures
        first_free_suffix(dest, taken, i) matches Some(p) ==> !taken.contains(p),
    decreases 100 - i,
{
    if i < 100 && taken.contains(suffix_candidate(dest, i)) {
        law_suffix_is_free(dest, taken, i + 1);
    }
}

/// The destinations a dry run takes are those of its successful results.
proof fn lemma_dry_run_seen(
    strategy: ConflictStrategy,
    entries: Seq<RenamePlanEntry>,
    existing: Seq<String>,
)
    ensures
        forall|p: Seq<char>|
            dry_run_spec(strategy, entries, existing).1.contains(p) <==> exists|k: int|
                0 <= k < dry_run_spec(strategy, entries, existing).0.len() && (#[trigger] dry_run_spec(
                    strategy,
                    entries,
                    existing,
                ).0[k]).success && dry_run_spec(strategy, entries, existing).0[k].dest_path == p,
    decreases entries.len(),
{
    if entries.len() > 0 {
        let prev = dry_run_spec(strategy, entries.drop_last(), existing);
        lemma_dry_run_seen(strategy, entries.drop_last(), existing);
        let cur = dry_run_spec(strategy, entries, existing);
        let e = entries.last();
        let step = dry_run_step(strategy, e.source_path@, e.dest_path@, existing, prev.1);
        assert(cur.0 == prev.0.push(step.0));
        assert(cur.1 == step.1);
        assert(if step.0.success {
            step.1 == prev.1.push(step.0.dest_path)
        } else {
            step.1 == prev.1
        });
        assert forall|p: Seq<char>| cur.1.contains(p) <==> exists|k: int|
            0 <= k < cur.0.len() && (#[trigger] cur.0[k]).success && cur.0[k].dest_path == p by {
            if step.0.success {
                let q = prev.1.push(step.0.dest_path);
                if q.contains(p) {
                    let m = choose|m: int| 0 <= m < q.len() && q[m] == p;
                    if m < prev.1.len() {
                        assert(prev.1[m] == p);
                        assert(prev.1.contains(p));
                    }
                }
                if prev.1.contains(p) {
                    let m = choose|m: int| 0 <= m < prev.1.len() && prev.1[m] == p;
                    assert(q[m] == p);
                }
                assert(q[prev.1.len() as int] == step.0.dest_path);
            }
            if cur.1.contains(p) {
                if prev.1.contains(p) {
                    let k = choose|k: int|
                        0 <= k < prev.0.len() && (#[trigger] prev.0[k]).success && prev.0[k].dest_path
                            == p;
                    assert(cur.0[k] == prev.0[k]);
                } else {
                    assert(step.0.success && step.0.dest_path == p);
                    assert(cur.0[prev.0.len() as int] == step.0);
                }
            }
            if exists|k: int| 0 <= k < cur.0.len() && (#[trigger] cur.0[k]).success && cur.0[k].dest_path == p {
                let k = choose|k: int|
                    0 <= k < cur.0.len() && (#[trigger] cur.0[k]).success && cur.0[k].dest_path == p;
                if k < prev.0.len() {
                    assert(cur.0[k] == prev.0[k]);
                    assert(prev.1.contains(p));
                } else {
                    assert(cur.0[k] == step.0);
                }
            }
        }
    }
}

/// With the `Skip` strategy a dry run never plans a rename onto a path
/// that exists or that an earlier rename of the plan takes: the
/// destinations of its successful results are free and pairwise distinct.
pub proof fn law_skip_dry_run_targets_free(entries: Seq<RenamePlanEntry>, existing: Seq<String>)
    ensures
        ({
            let rs = dry_run_spec(ConflictStrategy::Skip, entries, existing).0;
            &&& forall|i: int|
                0 <= i < rs.len() && (#[trigger] rs[i]).success ==> !exists_in(
                    existing,
                    rs[i].dest_path,
                )
            &&& forall|i: int, j: int|
                0 <= j < i < rs.len() && (#[trigger] rs[i]).success && (#[trigger] rs[j]).success
                    ==> rs[i].dest_path != rs[j].dest_path
        }),
    decreases entries.len(),
{
    if entries.len() > 0 {
        let prev = dry_run_spec(ConflictStrategy::Skip, entries.drop_last(), existing);
        law_skip_dry_run_targets_free(entries.drop_last(), existing);
        lemma_dry_run_seen(ConflictStrategy::Skip, entries.drop_last(), existing);
        lemma_dry_run_len(ConflictStrategy::Skip, entries.drop_last(), existing);
        let e = entries.last();
        let step = dry_run_step(ConflictStrategy::Skip, e.source_path@, e.dest_path@, existing, prev.1);
        let rs = dry_run_spec(ConflictStrategy::Skip, entries, existing).0;
        assert(rs == prev.0.push(step.0));
        let n = prev.0.len() as int;
        assert forall|i: int|
            0 <= i < rs.len() && (#[trigger] rs[i]).success implies !exists_in(
            existing,
            rs[i].dest_path,
        ) by {
            if i < n {
                assert(rs[i] == prev.0[i]);
            }
        }
        assert forall|i: int, j: int|
            0 <= j < i < rs.len() && (#[trigger] rs[i]).success && (#[trigger] rs[j]).success
                implies rs[i].dest_path != rs[j].dest_path by {
            assert(rs[j] == prev.0[j]);
            if i < n {
                assert(rs[i] == prev.0[i]);
            } else {
                assert(rs[i] == step.0);
                if rs[i].dest_path == rs[j].dest_path {
                    assert(prev.0[j].success && prev.0[j].dest_path == e.dest_path@);
                    assert(prev.1.contains(e.dest_path@));
                }
            }
        }
    }
}

/// With the `NumericSuffix` strategy a dry run never plans two renames
/// onto one path nor one onto an existing path: a conflicting destination
/// gets the first suffix that neither exists nor is taken by an earlier
/// rename of the plan.
pub proof fn law_suffix_dry_run_targets_distinct(entries: Seq<RenamePlanEntry>, existing: Seq<String>)
    ensures
        ({
            let rs = dry_run_spec(ConflictStrategy::NumericSuffix, entries, existing).0;
            &&& forall|i: int|
                0 <= i < rs.len() && (#[trigger] rs[i]).success ==> !exists_in(
                    existing,
                    rs[i].dest_path,
                )
            &&& forall|i: int, j: int|
                0 <= j < i < rs.len() && (#[trigger] rs[i]).success && (#[trigger] rs[j]).success
                    ==> rs[i].dest_path != rs[j].dest_path
        }),
    decreases entries.len(),
{
    if entries.len() > 0 {
        let st = ConflictStrategy::NumericSuffix;
        let prev = dry_run_spec(st, entries.drop_last(), existing);
        law_suffix_dry_run_targets_distinct(entries.drop_last(), existing);
        lemma_dry_run_seen(st, entries.drop_last(), existing);
        lemma_dry_run_len(st, entries.drop_last(), existing);
        let e = entries.last();
        let step = dry_run_step(st, e.source_path@, e.dest_path@, existing, prev.1);
        let taken = strings_view(existing) + prev.1;
        law_suffix_is_free(e.dest_path@, taken, 1);
        let rs = dry_run_spec(st, entries, existing).0;
        assert(rs == prev.0.push(step.0));
        let n = prev.0.len() as int;
        if step.0.success {
            let d = step.0.dest_path;
            assert(!strings_view(existing).contains(d) && !prev.1.contains(d)) by {
                if exists_in(existing, e.dest_path@) || prev.1.contains(e.dest_path@) {
                    let p = first_free_suffix(e.dest_path@, taken, 1)->Some_0;
                    assert(d == p);
                    if strings_view(existing).contains(d) {
                        let k = choose|k: int| 0 <= k < strings_view(existing).len() && strings_view(existing)[k] == d;
                        assert(taken[k] == d);
                    }
                    if prev.1.contains(d) {
                        let k = choose|k: int| 0 <= k < prev.1.len() && prev.1[k] == d;
                        assert(taken[strings_view(existing).len() + k] == d);
                    }
                }
            }
        }
        assert forall|i: int|
            0 <= i < rs.len() && (#[trigger] rs[i]).success implies !exists_in(
            existing,
            rs[i].dest_path,
        ) by {
            if i < n {
                assert(rs[i] == prev.0[i]);
            }
        }
        assert forall|i: int, j: int|
            0 <= j < i < rs.len() && (#[trigger] rs[i]).success && (#[trigger] rs[j]).success
                implies rs[i].dest_path != rs[j].dest_path by {
            assert(rs[j] == prev.0[j]);
            if i < n {
                assert(rs[i] == prev.0[i]);
            } else {
                assert(rs[i] == step.0);
                if rs[i].dest_path == rs[j].dest_path {
                    assert(prev.0[j].success && prev.0[j].dest_path == step.0.dest_path);
                    assert(prev.1.contains(step.0.dest_path));
                }
            }
        }
    }
}

/// The destinations of the successful results, in order.
pub open spec fn success_dests(rs: Seq<RenameResultV>) -> Seq<Seq<char>>
    decreases rs.len(),
{
    if rs.len() == 0 {
        Seq::<Seq<char>>::empty()
    } else if rs.last().success {
        success_dests(rs.drop_last()).push(rs.last().dest_path)
    } else {
        success_dests(rs.drop_last())
    }
}

/// The results of a run of a plan in which every transfer succeeds, on a
/// disk that holds `existing` and whatever the run has put in place so
/// far (each entry decided as `Renamer::plan_entry` decides it, each
/// transfer ending as `Renamer::transfer_result` reports a finished one).
pub open spec fn run_results(
    strategy: ConflictStrategy,
    entries: Seq<RenamePlanEntry>,
    existing: Seq<Seq<char>>,
) -> Seq<RenameResultV>
    decreases entries.len(),
{
    if entries.len() == 0 {
        Seq::<RenameResultV>::empty()
    } else {
        let prev = run_results(strategy, entries.drop_last(), existing);
        let e = entries.last();
        prev.push(settled_result(strategy, e.source_path@, e.dest_path@, existing + success_dests(prev)))
    }
}

/// `success_dests` holds exactly the destinations of successful results.
proof fn lemma_success_dests(rs: Seq<RenameResultV>)
    ensures
        forall|p: Seq<char>|
            success_dests(rs).contains(p) <==> exists|k: int|
                0 <= k < rs.len() && (#[trigger] rs[k]).success && rs[k].dest_path == p,
    decreases rs.len(),
{
    if rs.len() > 0 {
        let prev = rs.drop_last();
        lemma_success_dests(prev);
        let sp = success_dests(prev);
        let last = rs.last();
        assert(rs[rs.len() - 1] == last);
        assert forall|k: int| 0 <= k < prev.len() implies #[trigger] rs[k] == prev[k] by {}
        assert forall|p: Seq<char>|
            success_dests(rs).contains(p) <==> exists|k: int|
                0 <= k < rs.len() && (#[trigger] rs[k]).success && rs[k].dest_path == p by {
            if last.success {
                let q = sp.push(last.dest_path);
                assert(success_dests(rs) == q);
                if q.contains(p) {
                    let m = choose|m: int| 0 <= m < q.len() && q[m] == p;
                    if m < sp.len() {
                        assert(sp[m] == p);
                        assert(sp.contains(p));
                        let k = choose|k: int| 0 <= k < prev.len() && (#[trigger] prev[k]).success && prev[k].dest_path == p;
                        assert(rs[k] == prev[k]);
                    } else {
                        assert(rs[rs.len() - 1].success && rs[rs.len() - 1].dest_path == p);
                    }
                }
                if exists|k: int| 0 <= k < rs.len() && (#[trigger] rs[k]).success && rs[k].dest_path == p {
                    let k = choose|k: int| 0 <= k < rs.len() && (#[trigger] rs[k]).success && rs[k].dest_path == p;
                    if k < prev.len() {
                        assert(prev[k].success && prev[k].dest_path == p);
                        assert(sp.contains(p));
                        let m = choose|m: int| 0 <= m < sp.len() && sp[m] == p;
                        assert(q[m] == p);
                    } else {
                        assert(q[sp.len() as int] == p);
                    }
                }
            } else {
                assert(success_dests(rs) == sp);
                if sp.contains(p) {
                    let k = choose|k: int| 0 <= k < prev.len() && (#[trigger] prev[k]).success && prev[k].dest_path == p;
                    assert(rs[k] == prev[k]);
                }
                if exists|k: int| 0 <= k < rs.len() && (#[trigger] rs[k]).success && rs[k].dest_path == p {
                    let k = choose|k: int| 0 <= k < rs.len() && (#[trigger] rs[k]).success && rs[k].dest_path == p;
                    assert(k < prev.len());
                    assert(prev[k].success && prev[k].dest_path == p);
                }
            }
        }
    }
}

/// The first free suffix depends only on which paths are taken.
proof fn lemma_free_suffix_congruent(dest: Seq<char>, a: Seq<Seq<char>>, b: Seq<Seq<char>>, i: nat)
    requires
        forall|p: Seq<char>| a.contains(p) <==> b.contains(p),
    ensures
        first_free_suffix(dest, a, i) == first_free_suffix(dest, b, i),
    decreases 100 - i,
{
    if i < 100 {
        lemma_free_suffix_congruent(dest, a, b, i + 1);
        assert(a.contains(suffix_candidate(dest, i)) == b.contains(suffix_candidate(dest, i)));
    }
}

/// A dry run predicts a run: when every transfer succeeds and the disk
/// holds the existing paths plus what the run has put in place, each
/// entry comes to the result its dry run gives.
pub proof fn law_run_matches_dry_run(
    strategy: ConflictStrategy,
    entries: Seq<RenamePlanEntry>,
    existing: Seq<String>,
)
    ensures
        run_results(strategy, entries, strings_view(existing)) == dry_run_spec(
            strategy,
            entries,
            existing,
        ).0,
    decreases entries.len(),
{
    if entries.len() > 0 {
        let init = entries.drop_last();
        law_run_matches_dry_run(strategy, init, existing);
        let prev = dry_run_spec(strategy, init, existing);
        lemma_dry_run_seen(strategy, init, existing);
        lemma_success_dests(prev.0);
        let e = entries.last();
        let a = strings_view(existing) + success_dests(prev.0);
        let b = strings_view(existing) + prev.1;
        assert forall|p: Seq<char>| a.contains(p) <==> b.contains(p) by {
            let n = strings_view(existing).len() as int;
            if a.contains(p) {
                let m = choose|m: int| 0 <= m < a.len() && a[m] == p;
                if m < n {
                    assert(b[m] == p);
                } else {
                    assert(success_dests(prev.0)[m - n] == p);
                    assert(success_dests(prev.0).contains(p));
                    let k = choose|k: int| 0 <= k < prev.0.len() && (#[trigger] prev.0[k]).success && prev.0[k].dest_path == p;
                    assert(prev.0[k].success && prev.0[k].dest_path == p);
                    assert(prev.1.contains(p));
                    let m2 = choose|m2: int| 0 <= m2 < prev.1.len() && prev.1[m2] == p;
                    assert(b[n + m2] == p);
                }
            }
            if b.contains(p) {
                let m = choose|m: int| 0 <= m < b.len() && b[m] == p;
                if m < n {
                    assert(a[m] == p);
                } else {
                    assert(prev.1[m - n] == p);
                    assert(prev.1.contains(p));
                    let k = choose|k: int| 0 <= k < prev.0.len() && (#[trigger] prev.0[k]).success && prev.0[k].dest_path == p;
                    assert(prev.0[k].success && prev.0[k].dest_path == p);
                    assert(success_dests(prev.0).contains(p));
                    let m2 = choose|m2: int| 0 <= m2 < success_dests(prev.0).len() && success_dests(prev.0)[m2] == p;
                    assert(a[n + m2] == p);
                }
            }
        }
        lemma_free_suffix_congruent(e.dest_path@, a, b, 1);
        assert(b.contains(e.dest_path@) == (exists_in(existing, e.dest_path@) || prev.1.contains(e.dest_path@))) by {
            let n = strings_view(existing).len() as int;
            if b.contains(e.dest_path@) {
                let m = choose|m: int| 0 <= m < b.len() && b[m] == e.dest_path@;
                if m < n {
                    assert(strings_view(existing)[m] == e.dest_path@);
                } else {
                    assert(prev.1[m - n] == e.dest_path@);
                }
            }
            if exists_in(existing, e.dest_path@) {
                let m = choose|m: int| 0 <= m < strings_view(existing).len() && strings_view(existing)[m] == e.dest_path@;
                assert(b[m] == e.dest_path@);
            }
            if prev.1.contains(e.dest_path@) {
                let m = choose|m: int| 0 <= m < prev.1.len() && prev.1[m] == e.dest_path@;
                assert(b[n + m] == e.dest_path@);
            }
        }
        let step = dry_run_step(strategy, e.source_path@, e.dest_path@, existing, prev.1);
        assert(step.0 == settled_result(strategy, e.source_path@, e.dest_path@, a));
    }
}


/// The result an entry comes to depends only on which paths are taken.
proof fn lemma_settled_congruent(
    strategy: ConflictStrategy,
    source: Seq<char>,
    dest: Seq<char>,
    a: Seq<Seq<char>>,
    b: Seq<Seq<char>>,
)
    requires
        forall|p: Seq<char>| a.contains(p) <==> b.contains(p),
    ensures
        settled_result(strategy, source, dest, a) == settled_result(strategy, source, dest, b),
{
    lemma_free_suffix_congruent(dest, a, b, 1);
    assert(a.contains(dest) == b.contains(dest));
}

/// A dry run of the first `n` entries gives the first `n` results of a dry
/// run of all of them.
proof fn lemma_dry_run_prefix(
    strategy: ConflictStrategy,
    entries: Seq<RenamePlanEntry>,
    existing: Seq<String>,
    n: int,
)
    requires
        0 <= n <= entries.len(),
    ensures
        dry_run_spec(strategy, entries.take(n), existing).0 == dry_run_spec(
            strategy,
            entries,
            existing,
        ).0.take(n),
    decreases entries.len(),
{
    lemma_dry_run_len(strategy, entries, existing);
    if n == entries.len() {
        assert(entries.take(n) =~= entries);
        assert(dry_run_spec(strategy, entries, existing).0.take(n) =~= dry_run_spec(
            strategy,
            entries,
            existing,
        ).0);
    } else {
        let init = entries.drop_last();
        lemma_dry_run_prefix(strategy, init, existing, n);
        lemma_dry_run_len(strategy, init, existing);
        assert(init.take(n) =~= entries.take(n));
        let whole = dry_run_spec(strategy, entries, existing).0;
        let part = dry_run_spec(strategy, init, existing).0;
        assert(whole.take(n) =~= part.take(n)) by {
            assert forall|k: int| 0 <= k < n implies whole[k] == part[k] by {}
        }
    }
}

/// The first `m` results of a run whose entries all came to what was
/// planned, on a disk that held the existing paths plus what the run had
/// filled, are those of the model of a run.
proof fn lemma_run_prefix(run: RenameRun, existing: Seq<String>, m: int)
    requires
        run.wf(),
        0 <= m <= run.view_results().len(),
        forall|k: int| 0 <= k < run.view_results().len() ==> #[trigger] run.view_results()[k] == run.planned(k),
        forall|k: int, p: Seq<char>|
            0 <= k < run.view_results().len() ==> ((#[trigger] run.observed()[k].contains(p)) <==> (
            strings_view(existing) + success_dests(run.view_results().take(k))).contains(p)),
    ensures
        run.view_results().take(m) == run_results(
            run.renamer_of().conflict_strategy,
            run.entries().take(m),
            strings_view(existing),
        ),
    decreases m,
{
    let rs = run.view_results();
    let st = run.renamer_of().conflict_strategy;
    let es = run.entries();
    let sv = strings_view(existing);
    if m == 0 {
        assert(rs.take(0) =~= run_results(st, es.take(0), sv));
    } else {
        let j = m - 1;
        lemma_run_prefix(run, existing, j);
        let e = es[j];
        assert(es.take(m).drop_last() =~= es.take(j));
        assert(es.take(m).last() == e);
        let prev = rs.take(j);
        let a = sv + success_dests(prev);
        assert forall|p: Seq<char>| run.observed()[j].contains(p) <==> a.contains(p) by {
            assert(run.observed()[j].contains(p) <==> (sv + success_dests(rs.take(j))).contains(p));
        }
        lemma_settled_congruent(st, e.source_path@, e.dest_path@, run.observed()[j], a);
        assert(rs[j] == run.planned(j));
        assert(rs.take(m) =~= prev.push(rs[j]));
    }
}

/// A run carried out with [`RenameRun`] comes to what its dry run
/// predicts: when every file operation succeeded and, at each entry, the
/// listed existing paths were the ones that existed at the start plus the
/// destinations the run had filled, its results are the first results of
/// the dry run. It stops exactly where the dry run shows the first failure,
/// and a run that is done without a result for every entry ends on one.
pub proof fn law_run_follows_dry_run(run: RenameRun, existing: Seq<String>)
    requires
        run.wf(),
        forall|k: int| 0 <= k < run.view_results().len() ==> #[trigger] run.view_results()[k] == run.planned(k),
        forall|k: int, p: Seq<char>|
            0 <= k < run.view_results().len() ==> ((#[trigger] run.observed()[k].contains(p)) <==> (
            strings_view(existing) + success_dests(run.view_results().take(k))).contains(p)),
    ensures
        ({
            let rs = run.view_results();
            let dry = dry_run_spec(run.renamer_of().conflict_strategy, run.entries(), existing).0;
            &&& rs == dry.take(rs.len() as int)
            &&& forall|k: int| 0 <= k < rs.len() - 1 ==> (#[trigger] dry[k]).success
            &&& (run.is_done() && rs.len() < run.entries().len()) ==> !dry[rs.len() - 1].success
        }),
{
    let rs = run.view_results();
    let n = rs.len() as int;
    let st = run.renamer_of().conflict_strategy;
    let es = run.entries();
    let sv = strings_view(existing);
    lemma_run_prefix(run, existing, n);
    assert(rs.take(n) =~= rs);
    law_run_matches_dry_run(st, es.take(n), existing);
    lemma_dry_run_prefix(st, es, existing, n);
    let dry = dry_run_spec(st, es, existing).0;
    lemma_dry_run_len(st, es, existing);
    assert forall|k: int| 0 <= k < n - 1 implies (#[trigger] dry[k]).success by {
        assert(rs[k] == dry[k]);
        assert(rs[k].success);
    }
    if run.is_done() && n < es.len() {
        assert(rs[n - 1] == dry[n - 1]);
    }
}

} // verus!
