//! What the desktop front end's commands compute: template previews,
//! rename plans built from the entries it sends, the events of a streamed
//! scan, and the error it is answered with.

use vstd::prelude::*;
use crate::config::{Config, ConfigV};
use crate::error::{error_message, MediError, MediErrorV};
use crate::paths::{join_path, split_path};
use crate::renamer::{RenamePlan, RenamePlanEntry};
use crate::scanner::proposed_location;
use crate::template::{render_spec, text_result_view, TemplateEngine};
use crate::types::{MediaInfo, ScanResult};

verus! {

/// The error a command answers with.
#[derive(Debug, Clone)]
pub enum CommandError {
    /// An error of the library.
    Core(MediError),
    /// The shared state could not be locked.
    StateLock,
    /// Any other message.
    Other(String),
}

/// The text of a command error.
pub open spec fn command_error_message(e: CommandError) -> Seq<char> {
    match e {
        CommandError::Core(m) => error_message(m@),
        CommandError::StateLock => "state lock failed"@,
        CommandError::Other(s) => s@,
    }
}

impl CommandError {
    /// The text sent to the front end: a library error's own message, or
    /// `state lock failed`, or the message given.
    pub fn message(&self) -> (r: String)
        ensures
            r@ == command_error_message(*self),
    {
        match self {
            CommandError::Core(m) => m.message(),
            CommandError::StateLock => String::from_str("state lock failed"),
            CommandError::Other(s) => s.clone(),
        }
    }
}

/// A rename sent by the front end, with the metadata of its scan when
/// known.
#[derive(Debug, Clone)]
pub struct RenameEntry {
    /// Current path.
    pub source_path: String,
    /// Destination.
    pub dest_path: String,
    /// Metadata from the scan, for the history.
    pub media_info: Option<MediaInfo>,
}

/// The plan of the renames sent by the front end, in their order.
pub fn plan_from_entries(entries: &Vec<RenameEntry>) -> (r: RenamePlan)
    ensures
        r.entries@.len() == entries@.len(),
        forall|k: int|
            0 <= k < entries@.len() ==> (#[trigger] r.entries@[k]).source_path@
                == entries@[k].source_path@ && r.entries@[k].dest_path@ == entries@[k].dest_path@,
{
    let mut out: Vec<RenamePlanEntry> = Vec::new();
    let mut i: usize = 0;
    while i < entries.len()
        invariant
            i <= entries@.len(),
            out@.len() == i,
            forall|k: int|
                0 <= k < i ==> (#[trigger] out@[k]).source_path@ == entries@[k].source_path@
                    && out@[k].dest_path@ == entries@[k].dest_path@,
        decreases entries.len() - i,
    {
        out.push(
            RenamePlanEntry {
                source_path: entries[i].source_path.clone(),
                dest_path: entries[i].dest_path.clone(),
            },
        );
        i = i + 1;
    }
    RenamePlan { entries: out }
}

/// Renders a template against sample metadata.
pub fn preview_template(template: &str, media_info: &MediaInfo) -> (r: Result<String, MediError>)
    ensures
        text_result_view(r) == render_spec(template@, media_info@),
{
    let engine = TemplateEngine::new();
    engine.render(template, media_info)
}

/// The path a file would get: the template rendered and placed as a scan
/// places it (under the output directory, or next to the source).
pub fn preview_proposed_path(
    config: &Config,
    template: &str,
    media_info: &MediaInfo,
    source_path: &str,
) -> (r: Result<String, MediError>)
    ensures
        text_result_view(r) == match render_spec(template@, media_info@) {
            Ok(relative) => Ok(proposed_location(config@, source_path@, relative)),
            Err(e) => Err::<Seq<char>, MediErrorV>(e),
        },
{
    let engine = TemplateEngine::new();
    let relative = match engine.render(template, media_info) {
        Ok(p) => p,
        Err(e) => {
            return Err(e);
        },
    };
    match &config.general.output_dir {
        Some(d) => Ok(join_path(d.as_str(), relative.as_str())),
        None => {
            let (parent, _name) = split_path(source_path);
            Ok(join_path(parent.as_str(), relative.as_str()))
        },
    }
}

/// An event of a streamed scan.
#[derive(Debug, Clone)]
pub enum ScanEvent {
    /// How many results were sent, out of how many.
    Progress { scanned: usize, total_estimate: usize },
    /// One result.
    Result { scan_result: Box<ScanResult> },
    /// The scan is over.
    Complete { total: usize },
    /// The scan failed.
    Error { message: String },
}

/// Whether an event is the `k`-th pair's result (0-based) for this result.
pub open spec fn is_result_event(e: ScanEvent, r: ScanResult) -> bool {
    match e {
        ScanEvent::Result { scan_result } => *scan_result == r,
        _ => false,
    }
}

/// The events of a streamed scan: each result followed by a progress
/// event counting it, then the completion with the total.
pub fn scan_events(results: Vec<ScanResult>) -> (r: Vec<ScanEvent>)
    ensures
        r@.len() == 2 * results@.len() + 1,
        forall|k: int|
            0 <= k < results@.len() ==> is_result_event(#[trigger] r@[2 * k], results@[k])
                && r@[2 * k + 1] == (ScanEvent::Progress {
                scanned: (k + 1) as usize,
                total_estimate: results@.len() as usize,
            }),
        r@[2 * results@.len() as int] == (ScanEvent::Complete { total: results@.len() as usize }),
{
    let total = results.len();
    let ghost orig = results@;
    let mut rest = results;
    let mut out: Vec<ScanEvent> = Vec::new();
    let mut i: usize = 0;
    while i < total
        invariant
            total == orig.len(),
            i <= total,
            rest@.len() == total - i,
            forall|q: int| 0 <= q < total - i ==> #[trigger] rest@[q] == orig[q + i],
            out@.len() == 2 * i,
            forall|k: int|
                0 <= k < i ==> is_result_event(#[trigger] out@[2 * k], orig[k]) && out@[2 * k + 1]
                    == (ScanEvent::Progress {
                    scanned: (k + 1) as usize,
                    total_estimate: total,
                }),
        decreases total - i,
    {
        let item = rest.remove(0);
        assert(item == orig[i as int]);
        let ghost before = out@;
        out.push(ScanEvent::Result { scan_result: Box::new(item) });
        out.push(ScanEvent::Progress { scanned: i + 1, total_estimate: total });
        assert forall|k: int| 0 <= k < i + 1 implies is_result_event(
            #[trigger] out@[2 * k],
            orig[k],
        ) && out@[2 * k + 1] == (ScanEvent::Progress {
            scanned: (k + 1) as usize,
            total_estimate: total,
        }) by {
            if k < i {
                assert(out@[2 * k] == before[2 * k]);
                assert(out@[2 * k + 1] == before[2 * k + 1]);
            }
        }
        i = i + 1;
    }
    let ghost before_last = out@;
    out.push(ScanEvent::Complete { total });
    assert forall|k: int| 0 <= k < total implies is_result_event(#[trigger] out@[2 * k], orig[k])
        && out@[2 * k + 1] == (ScanEvent::Progress {
        scanned: (k + 1) as usize,
        total_estimate: total,
    }) by {
        assert(out@[2 * k] == before_last[2 * k]);
        assert(out@[2 * k + 1] == before_last[2 * k + 1]);
    }
    assert(orig.len() == total);
    assert forall|k: int| 0 <= k < orig.len() implies is_result_event(#[trigger] out@[2 * k], orig[k])
        && out@[2 * k + 1] == (ScanEvent::Progress {
        scanned: (k + 1) as usize,
        total_estimate: orig.len() as usize,
    }) by {
        assert(0 <= k < total);
    }
    out
}

} // verus!
