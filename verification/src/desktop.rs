//! What the desktop front end decides about configured watchers: the
//! watcher configured for a folder, whether one may be started or stopped,
//! which to start when the application opens, persisting a watcher's
//! active flag, and review statuses sent as text.

use vstd::prelude::*;
use crate::commands::CommandError;
use crate::config::{Config, ConfigV};
use crate::renamer::{exists_in, strings_contain};
use crate::text::{cat, eq_str, to_chars};
use crate::types::{ReviewStatus, WatcherConfigV};

verus! {

/// Whether `i` is the first watcher configured for `path`.
pub open spec fn is_first_for(ws: Seq<WatcherConfigV>, path: Seq<char>, i: int) -> bool {
    &&& 0 <= i < ws.len()
    &&& ws[i].path == path
    &&& forall|j: int| 0 <= j < i ==> ws[j].path != path
}

/// Whether no watcher is configured for `path`.
pub open spec fn none_for(ws: Seq<WatcherConfigV>, path: Seq<char>) -> bool {
    forall|j: int| 0 <= j < ws.len() ==> ws[j].path != path
}

/// The first watcher configured for a folder, by position.
pub fn find_watcher(config: &Config, path: &str) -> (r: Option<usize>)
    ensures
        match r {
            Some(i) => is_first_for(config@.watchers, path@, i as int),
            None => none_for(config@.watchers, path@),
        },
{
    let pc = to_chars(path);
    let mut i: usize = 0;
    while i < config.watchers.len()
        invariant
            i <= config.watchers@.len(),
            pc@ == path@,
            forall|j: int| 0 <= j < i ==> config@.watchers[j].path != path@,
        decreases config.watchers.len() - i,
    {
        if eq_str(&pc, config.watchers[i].path.as_str()) {
            return Some(i);
        }
        i = i + 1;
    }
    None
}

/// The text of an error sent to the front end.
fn other_error(prefix: &str, path: &str) -> (r: CommandError)
    ensures
        r matches CommandError::Other(m) && m@ == prefix@ + path@,
{
    CommandError::Other(cat(prefix, path))
}

/// Checks a request to start the watcher of a folder: it must be
/// configured, and not already running. Gives the position of its
/// configuration.
pub fn check_start_watcher(config: &Config, path: &str, running: &Vec<String>) -> (r: Result<
    usize,
    CommandError,
>)
    ensures
        none_for(config@.watchers, path@) ==> (r matches Err(CommandError::Other(m)) && m@
            == "no watcher configured for path: "@ + path@),
        !none_for(config@.watchers, path@) && exists_in(running@, path@) ==> (r matches Err(
            CommandError::Other(m),
        ) && m@ == "watcher already running for path: "@ + path@),
        !none_for(config@.watchers, path@) && !exists_in(running@, path@) ==> (r matches Ok(i)
            && is_first_for(config@.watchers, path@, i as int)),
{
    match find_watcher(config, path) {
        None => Err(other_error("no watcher configured for path: ", path)),
        Some(i) => {
            if strings_contain(running, path) {
                Err(other_error("watcher already running for path: ", path))
            } else {
                Ok(i)
            }
        },
    }
}

/// Checks a request to stop the watcher of a folder: it must be running.
pub fn check_stop_watcher(path: &str, running: &Vec<String>) -> (r: Result<(), CommandError>)
    ensures
        exists_in(running@, path@) ==> r is Ok,
        !exists_in(running@, path@) ==> (r matches Err(CommandError::Other(m)) && m@
            == "no running watcher for path: "@ + path@),
{
    if strings_contain(running, path) {
        Ok(())
    } else {
        Err(other_error("no running watcher for path: ", path))
    }
}

/// The watchers with the active flag of the first one configured for
/// `path` set to `active`; the others as they are.
pub open spec fn with_active(ws: Seq<WatcherConfigV>, path: Seq<char>, active: bool) -> Seq<
    WatcherConfigV,
> {
    Seq::new(
        ws.len(),
        |i: int|
            if is_first_for(ws, path, i) {
                WatcherConfigV { active, ..ws[i] }
            } else {
                ws[i]
            },
    )
}

/// Records whether the watcher of a folder runs, so that it is started
/// again (or not) when the application opens; nothing else changes.
pub fn set_watcher_active(config: &mut Config, path: &str, active: bool)
    ensures
        final(config)@ == (ConfigV {
            watchers: with_active(old(config)@.watchers, path@, active),
            ..old(config)@
        }),
{
    match find_watcher(config, path) {
        None => {
            assert(old(config)@.watchers =~= with_active(old(config)@.watchers, path@, active));
        },
        Some(i) => {
            let mut w = config.watchers[i].duplicate();
            w.active = active;
            let ghost before = config.watchers@;
            config.watchers.set(i, w);
            assert(config@.watchers =~= with_active(old(config)@.watchers, path@, active)) by {
                assert forall|k: int| 0 <= k < before.len() implies #[trigger] config@.watchers[k]
                    == with_active(old(config)@.watchers, path@, active)[k] by {
                    if k == i as int {
                    } else {
                        assert(config.watchers@[k] == before[k]);
                        if is_first_for(old(config)@.watchers, path@, k) {
                            assert(k < i ==> old(config)@.watchers[k].path != path@);
                        }
                    }
                }
            }
        },
    }
}

/// Whether a watcher starts when the application opens: it is active and
/// its folder is not watched yet.
pub open spec fn starts_at_open(w: WatcherConfigV, running: Seq<String>) -> bool {
    w.active && !exists_in(running, w.path)
}

/// The next watcher to start when the application opens, at or after
/// position `from`, given the folders already watched; the caller adds
/// each folder it starts to `running` before asking again.
pub fn next_to_start(config: &Config, from: usize, running: &Vec<String>) -> (r: Option<usize>)
    ensures
        match r {
            Some(i) => from <= i < config@.watchers.len() && starts_at_open(
                config@.watchers[i as int],
                running@,
            ) && forall|j: int|
                from <= j < i ==> !starts_at_open(#[trigger] config@.watchers[j], running@),
            None => forall|j: int|
                from <= j < config@.watchers.len() ==> !starts_at_open(
                    #[trigger] config@.watchers[j],
                    running@,
                ),
        },
{
    let mut i: usize = from;
    while i < config.watchers.len()
        invariant
            from <= i,
            forall|j: int| from <= j < i ==> !starts_at_open(#[trigger] config@.watchers[j], running@),
        decreases config.watchers.len() - i,
    {
        let w = &config.watchers[i];
        if w.active && !strings_contain(running, w.path.as_str()) {
            return Some(i);
        }
        i = i + 1;
    }
    None
}

/// The review status named by a text sent from the front end.
pub fn parse_review_status(status: &str) -> (r: Result<ReviewStatus, CommandError>)
    ensures
        status@ == "pending"@ ==> r == Ok::<ReviewStatus, CommandError>(ReviewStatus::Pending),
        status@ != "pending"@ && status@ == "approved"@ ==> r == Ok::<ReviewStatus, CommandError>(
            ReviewStatus::Approved,
        ),
        status@ != "pending"@ && status@ != "approved"@ && status@ == "rejected"@ ==> r == Ok::<
            ReviewStatus,
            CommandError,
        >(ReviewStatus::Rejected),
        status@ != "pending"@ && status@ != "approved"@ && status@ != "rejected"@ ==> (r matches Err(
            CommandError::Other(m),
        ) && m@ == "invalid review status: "@ + status@),
{
    let c = to_chars(status);
    if eq_str(&c, "pending") {
        Ok(ReviewStatus::Pending)
    } else if eq_str(&c, "approved") {
        Ok(ReviewStatus::Approved)
    } else if eq_str(&c, "rejected") {
        Ok(ReviewStatus::Rejected)
    } else {
        Err(other_error("invalid review status: ", status))
    }
}

} // verus!
