//! The command line: its commands, and the decisions the program takes on them
//! before it touches the disk.

use vstd::prelude::*;
use crate::text::{
    chars_of, decimal, decimal_string, eq_ignore_ascii_case, eq_ignore_ascii_case_spec, trim,
    trim_spec,
};

verus! {

/// The parsed command line.
#[derive(Debug)]
pub struct Cli {
    /// The subcommand given.
    pub command: Commands,
}

/// The subcommands of `stick`.
#[derive(Clone, Copy, Debug, PartialEq, Eq, Structural)]
pub enum Commands {
    /// Register and start the background service.
    Start,
    /// Stop the background service.
    Stop,
    /// Show whether the service runs.
    Status,
    /// Open the settings screen.
    Tui,
    /// Print the version.
    Version,
    /// Scan the watched folders once.
    Scan {
        /// Only show what would be renamed.
        dry_run: bool,
        /// Do not ask before renaming.
        yes: bool,
    },
    /// Watch the folders (what the service runs).
    Watch,
}

/// Whether a scan asks before renaming: only a real run without `--yes`, and
/// only when the configuration asks for it.
pub fn scan_needs_confirmation(dry_run: bool, yes: bool, confirm_before_scan: bool) -> (b: bool)
    ensures
        b == (!yes && !dry_run && confirm_before_scan),
{
    !yes && !dry_run && confirm_before_scan
}

/// Whether an answer to the prompt accepts: `y` in either case, white space
/// around it ignored.
pub fn is_yes_answer(answer: &str) -> (b: bool)
    ensures
        b == eq_ignore_ascii_case_spec(trim_spec(answer@), seq!['y']),
{
    let t = trim(answer);
    let tv = chars_of(t.as_str());
    let mut y: Vec<char> = Vec::new();
    y.push('y');
    assert(y@ == seq!['y']);
    eq_ignore_ascii_case(&tv, &y)
}

/// The word for what happened to a file: planned in a dry run, done otherwise.
pub open spec fn action_word_spec(dry_run: bool) -> Seq<char> {
    if dry_run { "변환 예정"@ } else { "변환 완료"@ }
}

/// The word for what happened to a file in a scan.
pub fn action_word(dry_run: bool) -> (s: String)
    ensures
        s@ == action_word_spec(dry_run),
{
    if dry_run { "변환 예정".to_owned() } else { "변환 완료".to_owned() }
}

/// The closing line of a scan: renamed and failed counts.
pub open spec fn scan_report_spec(dry_run: bool, renamed: nat, errors: nat) -> Seq<char> {
    "📊 "@ + action_word_spec(dry_run) + " "@ + decimal(renamed) + "건, 에러 "@ + decimal(errors)
        + "건"@
}

/// The closing line of a scan over all watched folders.
pub fn scan_report(dry_run: bool, renamed: u64, errors: u64) -> (s: String)
    ensures
        s@ == scan_report_spec(dry_run, renamed as nat, errors as nat),
{
    let mut s = "📊 ".to_owned();
    let w = action_word(dry_run);
    s.append(w.as_str());
    s.append(" ");
    s.append(decimal_string(renamed).as_str());
    s.append("건, 에러 ");
    s.append(decimal_string(errors).as_str());
    s.append("건");
    s
}

/// The line `stick version` prints for a version number.
pub fn version_line(version: &str) -> (s: String)
    ensures
        s@ == "stick v"@ + version@,
{
    let mut s = "stick v".to_owned();
    s.append(version);
    s
}

} // verus!
