//! Status markers for terminal output.

use vstd::prelude::*;
use crate::types::ScanStatus;
use owo_colors::OwoColorize;

verus! {

/// `text` in green (`owo_colors::OwoColorize::green`, displayed): the
/// source writes the SGR code 32, the text, then the default-foreground
/// code 39.
#[verifier::external_body]
fn paint_green(text: &str) -> (r: String)
    ensures
        r@ == "\x1b[32m"@ + text@ + "\x1b[39m"@,
{
    format!("{}", text.green())
}

/// `text` in yellow (`owo_colors::OwoColorize::yellow`, displayed): SGR
/// code 33, the text, code 39.
#[verifier::external_body]
fn paint_yellow(text: &str) -> (r: String)
    ensures
        r@ == "\x1b[33m"@ + text@ + "\x1b[39m"@,
{
    format!("{}", text.yellow())
}

/// `text` in red (`owo_colors::OwoColorize::red`, displayed): SGR code 31,
/// the text, code 39.
#[verifier::external_body]
fn paint_red(text: &str) -> (r: String)
    ensures
        r@ == "\x1b[31m"@ + text@ + "\x1b[39m"@,
{
    format!("{}", text.red())
}

/// The marker of a scan status: `ok`, `!` for ambiguous, `x` for conflicts
/// and errors.
pub open spec fn status_marker(status: ScanStatus) -> Seq<char> {
    match status {
        ScanStatus::Okay => "ok"@,
        ScanStatus::Ambiguous => "!"@,
        ScanStatus::Conflict | ScanStatus::Error => "x"@,
    }
}

/// The marker of a scan status in colour: green, yellow, or red.
pub open spec fn colored_marker(status: ScanStatus) -> Seq<char> {
    match status {
        ScanStatus::Okay => "\x1b[32m"@ + status_marker(status) + "\x1b[39m"@,
        ScanStatus::Ambiguous => "\x1b[33m"@ + status_marker(status) + "\x1b[39m"@,
        ScanStatus::Conflict | ScanStatus::Error => "\x1b[31m"@ + status_marker(status)
            + "\x1b[39m"@,
    }
}

/// How results are shown: with or without colour, as tables or JSON.
pub struct OutputFormatter {
    color_enabled: bool,
    json_mode: bool,
}

impl OutputFormatter {
    /// Whether colours are used.
    pub closed spec fn colors(&self) -> bool {
        self.color_enabled
    }

    /// Whether output is JSON.
    pub closed spec fn json(&self) -> bool {
        self.json_mode
    }

    /// A formatter: colour is used only outside JSON mode, when standard
    /// output is a terminal and `NO_COLOR` is not set.
    pub fn with_terminal(json_mode: bool, stdout_is_terminal: bool, no_color_set: bool) -> (r:
        OutputFormatter)
        ensures
            r.colors() == (!json_mode && stdout_is_terminal && !no_color_set),
            r.json() == json_mode,
    {
        OutputFormatter {
            color_enabled: !json_mode && stdout_is_terminal && !no_color_set,
            json_mode,
        }
    }

    /// Whether colours are used.
    pub fn color_enabled(&self) -> (r: bool)
        ensures
            r == self.colors(),
    {
        self.color_enabled
    }

    /// Whether output is JSON.
    pub fn json_mode(&self) -> (r: bool)
        ensures
            r == self.json(),
    {
        self.json_mode
    }

    /// The marker of a scan status, coloured when colours are used.
    pub fn format_status(&self, status: &ScanStatus) -> (r: String)
        ensures
            r@ == if self.colors() {
                colored_marker(*status)
            } else {
                status_marker(*status)
            },
    {
        if self.color_enabled {
            match status {
                ScanStatus::Okay => paint_green("ok"),
                ScanStatus::Ambiguous => paint_yellow("!"),
                ScanStatus::Conflict => paint_red("x"),
                ScanStatus::Error => paint_red("x"),
            }
        } else {
            match status {
                ScanStatus::Okay => String::from_str("ok"),
                ScanStatus::Ambiguous => String::from_str("!"),
                ScanStatus::Conflict => String::from_str("x"),
                ScanStatus::Error => String::from_str("x"),
            }
        }
    }

    /// The marker of a rename or undo result: `ok` (green) for a success,
    /// `FAIL` (red) for a failure, coloured when colours are used.
    pub fn result_marker(&self, success: bool) -> (r: String)
        ensures
            r@ == if success {
                if self.colors() {
                    "\x1b[32m"@ + "ok"@ + "\x1b[39m"@
                } else {
                    "ok"@
                }
            } else if self.colors() {
                "\x1b[31m"@ + "FAIL"@ + "\x1b[39m"@
            } else {
                "FAIL"@
            },
    {
        if success {
            if self.color_enabled {
                paint_green("ok")
            } else {
                String::from_str("ok")
            }
        } else if self.color_enabled {
            paint_red("FAIL")
        } else {
            String::from_str("FAIL")
        }
    }
}

} // verus!
