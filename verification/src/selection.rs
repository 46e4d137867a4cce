//! The command line's rules: which scan results can be renamed, how a
//! typed list of numbers selects among them, the plan built from a
//! selection, the answers to the rename and review prompts, the scan
//! summary and the exit status of a rename run.

use vstd::prelude::*;
use crate::numeric::{parse_usize, parse_usize_spec};
use crate::renamer::{RenamePlan, RenamePlanEntry};
use crate::text::{split_chars, split_on, to_chars, trim, trim_white};
use crate::types::{MediaType, ScanResult, ScanStatus, WatcherMode};

verus! {

/// Results that can be renamed: those parsed with or without ambiguity.
pub open spec fn is_actionable(s: ScanStatus) -> bool {
    s == ScanStatus::Okay || s == ScanStatus::Ambiguous
}

/// The positions of the results that can be renamed, in order.
pub open spec fn actionable_positions(rs: Seq<ScanResult>) -> Seq<usize>
    decreases rs.len(),
{
    if rs.len() == 0 {
        Seq::<usize>::empty()
    } else {
        let prev = actionable_positions(rs.drop_last());
        if is_actionable(rs.last().status) {
            prev.push((rs.len() - 1) as usize)
        } else {
            prev
        }
    }
}

/// The positions of the results that can be renamed.
pub fn actionable_indices(results: &[ScanResult]) -> (r: Vec<usize>)
    ensures
        r@ == actionable_positions(results@),
{
    let mut r: Vec<usize> = Vec::new();
    let mut i: usize = 0;
    while i < results.len()
        invariant
            i <= results@.len(),
            r@ == actionable_positions(results@.subrange(0, i as int)),
        decreases results.len() - i,
    {
        assert(results@.subrange(0, i + 1).drop_last() =~= results@.subrange(0, i as int));
        let s = results[i].status;
        if s == ScanStatus::Okay || s == ScanStatus::Ambiguous {
            r.push(i);
        }
        i = i + 1;
    }
    assert(results@.subrange(0, results@.len() as int) =~= results@);
    r
}

/// The numbers of a comma-separated list, each trimmed; items that are
/// not numbers are dropped.
pub open spec fn listed_numbers(items: Seq<Seq<char>>) -> Seq<usize>
    decreases items.len(),
{
    if items.len() == 0 {
        Seq::<usize>::empty()
    } else {
        let prev = listed_numbers(items.drop_last());
        match parse_usize_spec(trim_white(items.last())) {
            Some(n) => prev.push(n),
            None => prev,
        }
    }
}

/// The numbers typed as a comma-separated list, in order.
pub fn parse_numbers(input: &str) -> (r: Vec<usize>)
    ensures
        r@ == listed_numbers(split_on(input@, ',')),
{
    let chars = to_chars(input);
    let items = split_chars(&chars, ',');
    let ghost all = split_on(input@, ',');
    let mut r: Vec<usize> = Vec::new();
    let mut i: usize = 0;
    while i < items.len()
        invariant
            all == split_on(input@, ','),
            items@.len() == all.len(),
            forall|k: int| 0 <= k < items@.len() ==> (#[trigger] items@[k])@ == all[k],
            i <= items@.len(),
            r@ == listed_numbers(all.subrange(0, i as int)),
        decreases items.len() - i,
    {
        assert(all.subrange(0, i + 1).drop_last() =~= all.subrange(0, i as int));
        assert(all.subrange(0, i + 1).last() == items@[i as int]@);
        let t = trim(&items[i]);
        match parse_usize(&t) {
            Some(n) => r.push(n),
            None => {},
        }
        i = i + 1;
    }
    assert(all.subrange(0, all.len() as int) =~= all);
    r
}

/// The positions `0..count` whose 1-based number is not excluded.
pub open spec fn kept_positions(count: nat, excludes: Seq<usize>) -> Seq<usize>
    decreases count,
{
    if count == 0 {
        Seq::<usize>::empty()
    } else {
        let prev = kept_positions((count - 1) as nat, excludes);
        if excludes.contains(count as usize) {
            prev
        } else {
            prev.push((count - 1) as usize)
        }
    }
}

/// Whether a number is in the list.
fn contains_number(v: &Vec<usize>, n: usize) -> (r: bool)
    ensures
        r == v@.contains(n),
{
    let mut i: usize = 0;
    while i < v.len()
        invariant
            i <= v@.len(),
            forall|k: int| 0 <= k < i ==> v@[k] != n,
        decreases v.len() - i,
    {
        if v[i] == n {
            return true;
        }
        i = i + 1;
    }
    false
}

/// The positions, among `count` listed items, that remain once the
/// items with the given 1-based numbers are excluded.
pub fn without_excluded(count: usize, excludes: &Vec<usize>) -> (r: Vec<usize>)
    ensures
        r@ == kept_positions(count as nat, excludes@),
{
    let mut r: Vec<usize> = Vec::new();
    let mut i: usize = 0;
    while i < count
        invariant
            i <= count,
            r@ == kept_positions(i as nat, excludes@),
        decreases count - i,
    {
        if !contains_number(excludes, i + 1) {
            r.push(i);
        }
        i = i + 1;
    }
    r
}

/// The 1-based numbers of a list of `len` items that are in range, in
/// order.
pub open spec fn in_range(numbers: Seq<usize>, len: nat) -> Seq<usize>
    decreases numbers.len(),
{
    if numbers.len() == 0 {
        Seq::<usize>::empty()
    } else {
        let prev = in_range(numbers.drop_last(), len);
        let n = numbers.last();
        if 1 <= n && n <= len {
            prev.push(n)
        } else {
            prev
        }
    }
}

/// The typed numbers that name one of `len` listed items.
pub fn select_numbers(input: &str, len: usize) -> (r: Vec<usize>)
    ensures
        r@ == in_range(listed_numbers(split_on(input@, ',')), len as nat),
{
    let nums = parse_numbers(input);
    let mut r: Vec<usize> = Vec::new();
    let mut i: usize = 0;
    while i < nums.len()
        invariant
            i <= nums@.len(),
            r@ == in_range(nums@.subrange(0, i as int), len as nat),
        decreases nums.len() - i,
    {
        assert(nums@.subrange(0, i + 1).drop_last() =~= nums@.subrange(0, i as int));
        let n = nums[i];
        if 1 <= n && n <= len {
            r.push(n);
        }
        i = i + 1;
    }
    assert(nums@.subrange(0, nums@.len() as int) =~= nums@);
    r
}

/// The renames of a selection: each video to its proposed path, followed
/// by its subtitles to theirs.
pub open spec fn selection_plan(rs: Seq<ScanResult>) -> Seq<(Seq<char>, Seq<char>)>
    decreases rs.len(),
{
    if rs.len() == 0 {
        Seq::<(Seq<char>, Seq<char>)>::empty()
    } else {
        let r = rs.last();
        selection_plan(rs.drop_last()).push((r.source_path@, r.proposed_path@)) + r.subtitles@.map_values(
            |s: crate::types::SubtitleMatch| (s.source_path@, s.proposed_path@),
        )
    }
}

/// The plan's renames as plain values.
pub open spec fn plan_pairs(p: Seq<RenamePlanEntry>) -> Seq<(Seq<char>, Seq<char>)> {
    p.map_values(|e: RenamePlanEntry| (e.source_path@, e.dest_path@))
}

/// The plan that renames the selected results and their subtitles.
pub fn plan_for_results(results: &[ScanResult]) -> (r: RenamePlan)
    ensures
        plan_pairs(r.entries@) == selection_plan(results@),
{
    let mut entries: Vec<RenamePlanEntry> = Vec::new();
    let mut i: usize = 0;
    while i < results.len()
        invariant
            i <= results@.len(),
            plan_pairs(entries@) == selection_plan(results@.subrange(0, i as int)),
        decreases results.len() - i,
    {
        let ghost before = results@.subrange(0, i as int);
        assert(results@.subrange(0, i + 1).drop_last() =~= before);
        let r = &results[i];
        entries.push(
            RenamePlanEntry { source_path: r.source_path.clone(), dest_path: r.proposed_path.clone() },
        );
        let ghost base = plan_pairs(entries@);
        let mut k: usize = 0;
        while k < r.subtitles.len()
            invariant
                k <= r.subtitles@.len(),
                plan_pairs(entries@) == base + r.subtitles@.subrange(0, k as int).map_values(
                    |s: crate::types::SubtitleMatch| (s.source_path@, s.proposed_path@),
                ),
            decreases r.subtitles.len() - k,
        {
            let s = &r.subtitles[k];
            let ghost old_entries = entries@;
            entries.push(
                RenamePlanEntry {
                    source_path: s.source_path.clone(),
                    dest_path: s.proposed_path.clone(),
                },
            );
            assert(r.subtitles@.subrange(0, k + 1) =~= r.subtitles@.subrange(0, k as int).push(
                r.subtitles@[k as int],
            ));
            assert(plan_pairs(entries@) =~= plan_pairs(old_entries).push(
                (s.source_path@, s.proposed_path@),
            ));
            assert(r.subtitles@.subrange(0, k + 1).map_values(
                |s: crate::types::SubtitleMatch| (s.source_path@, s.proposed_path@),
            ) =~= r.subtitles@.subrange(0, k as int).map_values(
                |s: crate::types::SubtitleMatch| (s.source_path@, s.proposed_path@),
            ).push((s.source_path@, s.proposed_path@)));
            assert(plan_pairs(entries@) =~= base + r.subtitles@.subrange(0, k + 1).map_values(
                |s: crate::types::SubtitleMatch| (s.source_path@, s.proposed_path@),
            ));
            k = k + 1;
        }
        assert(r.subtitles@.subrange(0, r.subtitles@.len() as int) =~= r.subtitles@);
        assert(results@.subrange(0, i + 1).last() == *r);
        i = i + 1;
    }
    assert(results@.subrange(0, results@.len() as int) =~= results@);
    RenamePlan { entries }
}

/// How many results have a status in a class.
pub open spec fn count_status(rs: Seq<ScanResult>, class: spec_fn(ScanStatus) -> bool) -> nat
    decreases rs.len(),
{
    if rs.len() == 0 {
        0
    } else {
        count_status(rs.drop_last(), class) + if class(rs.last().status) {
            1nat
        } else {
            0nat
        }
    }
}

/// The counts a scan summary reports.
pub struct ScanSummary {
    /// Results shown.
    pub total: usize,
    /// Ready to rename.
    pub ready: usize,
    /// Ambiguous.
    pub ambiguous: usize,
    /// Conflicts and errors.
    pub conflicts: usize,
}

/// Counts the results shown by status: ready, ambiguous, and conflicts
/// with errors.
pub fn scan_summary(results: &[ScanResult]) -> (r: ScanSummary)
    ensures
        r.total == results@.len(),
        r.ready == count_status(results@, |s: ScanStatus| s == ScanStatus::Okay),
        r.ambiguous == count_status(results@, |s: ScanStatus| s == ScanStatus::Ambiguous),
        r.conflicts == count_status(
            results@,
            |s: ScanStatus| s == ScanStatus::Conflict || s == ScanStatus::Error,
        ),
{
    let ghost ok_class = |s: ScanStatus| s == ScanStatus::Okay;
    let ghost amb_class = |s: ScanStatus| s == ScanStatus::Ambiguous;
    let ghost bad_class = |s: ScanStatus| s == ScanStatus::Conflict || s == ScanStatus::Error;
    let mut ready: usize = 0;
    let mut ambiguous: usize = 0;
    let mut conflicts: usize = 0;
    let mut i: usize = 0;
    while i < results.len()
        invariant
            i <= results@.len(),
            ok_class == (|s: ScanStatus| s == ScanStatus::Okay),
            amb_class == (|s: ScanStatus| s == ScanStatus::Ambiguous),
            bad_class == (|s: ScanStatus| s == ScanStatus::Conflict || s == ScanStatus::Error),
            ready == count_status(results@.subrange(0, i as int), ok_class),
            ambiguous == count_status(results@.subrange(0, i as int), amb_class),
            conflicts == count_status(results@.subrange(0, i as int), bad_class),
            ready + ambiguous + conflicts <= i,
        decreases results.len() - i,
    {
        assert(results@.subrange(0, i + 1).drop_last() =~= results@.subrange(0, i as int));
        assert(results@.subrange(0, i + 1).last() == results@[i as int]);
        match results[i].status {
            ScanStatus::Okay => {
                ready = ready + 1;
            },
            ScanStatus::Ambiguous => {
                ambiguous = ambiguous + 1;
            },
            ScanStatus::Conflict | ScanStatus::Error => {
                conflicts = conflicts + 1;
            },
        }
        i = i + 1;
    }
    assert(results@.subrange(0, results@.len() as int) =~= results@);
    ScanSummary { total: results.len(), ready, ambiguous, conflicts }
}

/// The exit status of a rename run: 3 when some renames failed and some
/// succeeded, 1 when only failures, 0 otherwise.
pub fn rename_exit_code(succeeded: usize, failed: usize) -> (r: i32)
    ensures
        r == if failed > 0 && succeeded > 0 {
            3int
        } else if failed > 0 {
            1int
        } else {
            0int
        },
{
    if failed > 0 && succeeded > 0 {
        3
    } else if failed > 0 {
        1
    } else {
        0
    }
}

/// The media type a `--type` value selects: `movie`, or `series` and
/// `anime` (anime is handled as series).
pub fn media_type_from_arg(value: &str) -> (r: Option<MediaType>)
    ensures
        r == if value@ == "movie"@ {
            Some(MediaType::Movie)
        } else if value@ == "series"@ || value@ == "anime"@ {
            Some(MediaType::Series)
        } else {
            None::<MediaType>
        },
{
    let c = to_chars(value);
    if crate::text::eq_str(&c, "movie") {
        Some(MediaType::Movie)
    } else if crate::text::eq_str(&c, "series") || crate::text::eq_str(&c, "anime") {
        Some(MediaType::Series)
    } else {
        None
    }
}

/// The watcher mode a `--mode` value selects: automatic when absent.
pub fn watch_mode_from_arg(value: Option<&str>) -> (r: Result<WatcherMode, String>)
    ensures
        match value {
            None => r == Ok::<WatcherMode, String>(WatcherMode::Auto),
            Some(v) => if v@ == "review"@ {
                r == Ok::<WatcherMode, String>(WatcherMode::Review)
            } else if v@ == "auto"@ {
                r == Ok::<WatcherMode, String>(WatcherMode::Auto)
            } else {
                r matches Err(e) && e@ == "unknown mode: "@ + v@
            },
        },
{
    match value {
        None => Ok(WatcherMode::Auto),
        Some(v) => {
            let c = to_chars(v);
            if crate::text::eq_str(&c, "review") {
                Ok(WatcherMode::Review)
            } else if crate::text::eq_str(&c, "auto") {
                Ok(WatcherMode::Auto)
            } else {
                Err(String::from_str("unknown mode: ").concat(v))
            }
        },
    }
}

/// Whether a typed answer, trimmed, is the letter given in either case.
pub open spec fn answers_letter(input: Seq<char>, lower: char, upper: char) -> bool {
    trim_white(input) == seq![lower] || trim_white(input) == seq![upper]
}

/// Whether trimmed characters are the letter given in either case.
fn is_letter(t: &Vec<char>, lower: char, upper: char) -> (r: bool)
    ensures
        r == (t@ == seq![lower] || t@ == seq![upper]),
{
    if t.len() == 1 && (t[0] == lower || t[0] == upper) {
        assert(t@ =~= seq![t[0]]);
        true
    } else {
        false
    }
}

/// The results a rename run keeps from its confirmation prompt: none (the
/// run is aborted) for `q`, else every listed result but those whose
/// numbers were typed (an empty answer keeps them all).
pub fn rename_selection(input: &str, count: usize) -> (r: Option<Vec<usize>>)
    ensures
        answers_letter(input@, 'q', 'Q') ==> r is None,
        !answers_letter(input@, 'q', 'Q') ==> (r matches Some(v) && v@ == kept_positions(
            count as nat,
            listed_numbers(split_on(trim_white(input@), ',')),
        )),
{
    let t = trim(&to_chars(input));
    if is_letter(&t, 'q', 'Q') {
        return None;
    }
    let trimmed = crate::text::from_chars(&t);
    let excludes = parse_numbers(trimmed.as_str());
    Some(without_excluded(count, &excludes))
}

/// What to do with one entry of the review queue.
#[derive(Debug, Clone, Copy, PartialEq, Eq, Structural)]
pub enum ReviewStep {
    /// Rename it and mark it approved (by position).
    Approve(usize),
    /// Mark it rejected: its file is gone (by position).
    Reject(usize),
}

/// What the review prompt's answer asks for.
#[derive(Debug, Clone, PartialEq, Eq)]
pub enum ReviewPlan {
    /// Stop without changing anything.
    Quit,
    /// Reject every pending entry.
    RejectAll,
    /// Handle the selected entries, in the order typed.
    Steps(Vec<ReviewStep>),
}

/// The step for the entry with 1-based number `n`: an entry whose file is
/// gone is rejected, any other approved.
pub open spec fn step_for(n: usize, stale: Seq<bool>) -> ReviewStep {
    if stale[n - 1] {
        ReviewStep::Reject((n - 1) as usize)
    } else {
        ReviewStep::Approve((n - 1) as usize)
    }
}

/// The steps for a list of 1-based numbers.
pub open spec fn steps_for(numbers: Seq<usize>, stale: Seq<bool>) -> Seq<ReviewStep> {
    numbers.map_values(|n: usize| step_for(n, stale))
}

/// The numbers of `in_range` lie between 1 and `len`.
proof fn lemma_in_range_bounds(numbers: Seq<usize>, len: nat)
    ensures
        forall|k: int|
            0 <= k < in_range(numbers, len).len() ==> 1 <= #[trigger] in_range(numbers, len)[k]
                <= len,
    decreases numbers.len(),
{
    if numbers.len() > 0 {
        let prev = in_range(numbers.drop_last(), len);
        lemma_in_range_bounds(numbers.drop_last(), len);
        assert forall|k: int| 0 <= k < in_range(numbers, len).len() implies 1
            <= #[trigger] in_range(numbers, len)[k] <= len by {
            if k < prev.len() {
                assert(in_range(numbers, len)[k] == prev[k]);
            }
        }
    }
}

/// The steps for numbers between 1 and the number of entries.
fn steps_of(numbers: &Vec<usize>, stale: &Vec<bool>) -> (r: Vec<ReviewStep>)
    requires
        forall|k: int| 0 <= k < numbers@.len() ==> 1 <= #[trigger] numbers@[k] <= stale@.len(),
    ensures
        r@ == steps_for(numbers@, stale@),
{
    let mut r: Vec<ReviewStep> = Vec::new();
    let mut i: usize = 0;
    while i < numbers.len()
        invariant
            i <= numbers@.len(),
            forall|k: int| 0 <= k < numbers@.len() ==> 1 <= #[trigger] numbers@[k] <= stale@.len(),
            r@ == steps_for(numbers@.subrange(0, i as int), stale@),
        decreases numbers.len() - i,
    {
        let n = numbers[i];
        let step = if stale[n - 1] {
            ReviewStep::Reject(n - 1)
        } else {
            ReviewStep::Approve(n - 1)
        };
        r.push(step);
        assert(steps_for(numbers@.subrange(0, i + 1), stale@) =~= steps_for(
            numbers@.subrange(0, i as int),
            stale@,
        ).push(step_for(n, stale@)));
        i = i + 1;
    }
    assert(numbers@.subrange(0, numbers@.len() as int) =~= numbers@);
    r
}

/// What the review prompt's answer asks for: `q` quits, `r` rejects all
/// (either case), anything else selects entries by their 1-based numbers
/// (numbers out of range are ignored); a selected entry whose file is gone
/// is rejected, the others approved.
pub fn review_plan(input: &str, stale: &Vec<bool>) -> (r: ReviewPlan)
    ensures
        answers_letter(input@, 'q', 'Q') ==> r == ReviewPlan::Quit,
        !answers_letter(input@, 'q', 'Q') && answers_letter(input@, 'r', 'R') ==> r
            == ReviewPlan::RejectAll,
        !answers_letter(input@, 'q', 'Q') && !answers_letter(input@, 'r', 'R') ==> (r matches ReviewPlan::Steps(v)
            && v@ == steps_for(
            in_range(listed_numbers(split_on(trim_white(input@), ',')), stale@.len()),
            stale@,
        )),
{
    let t = trim(&to_chars(input));
    if is_letter(&t, 'q', 'Q') {
        return ReviewPlan::Quit;
    }
    if is_letter(&t, 'r', 'R') {
        return ReviewPlan::RejectAll;
    }
    let trimmed = crate::text::from_chars(&t);
    let numbers = select_numbers(trimmed.as_str(), stale.len());
    proof {
        lemma_in_range_bounds(listed_numbers(split_on(trim_white(input@), ',')), stale@.len());
    }
    ReviewPlan::Steps(steps_of(&numbers, stale))
}

/// The steps of approving every pending entry: those whose file is gone
/// are rejected, the others approved, in order.
pub fn approve_all_steps(stale: &Vec<bool>) -> (r: Vec<ReviewStep>)
    ensures
        r@.len() == stale@.len(),
        forall|k: int|
            0 <= k < stale@.len() ==> #[trigger] r@[k] == if stale@[k] {
                ReviewStep::Reject(k as usize)
            } else {
                ReviewStep::Approve(k as usize)
            },
{
    let mut r: Vec<ReviewStep> = Vec::new();
    let mut i: usize = 0;
    while i < stale.len()
        invariant
            i <= stale@.len(),
            r@.len() == i,
            forall|k: int|
                0 <= k < i ==> #[trigger] r@[k] == if stale@[k] {
                    ReviewStep::Reject(k as usize)
                } else {
                    ReviewStep::Approve(k as usize)
                },
        decreases stale.len() - i,
    {
        if stale[i] {
            r.push(ReviewStep::Reject(i));
        } else {
            r.push(ReviewStep::Approve(i));
        }
        i = i + 1;
    }
    r
}

} // verus!
