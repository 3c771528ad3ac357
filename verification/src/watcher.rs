//! Watching: which events lead to a conversion, and what the watch loop does
//! next for each thing it receives.

use vstd::prelude::*;
use crate::config::{StickConfig, views};
use crate::notifier::{notification_script_spec, send_notification, CommandLine};
use crate::scanner::RenameEntry;

verus! {

/// The kind of a file system event, as far as the watcher tells them apart.
#[derive(Clone, Copy, Debug, PartialEq, Eq)]
pub enum FsEventKind {
    /// Something was created.
    Create,
    /// Something was renamed.
    Rename,
    /// Anything else (writes, removals, metadata, ...).
    Other,
}

/// What the watch loop receives.
#[derive(Debug)]
pub enum WatchEvent {
    /// A file system event with the paths it concerns.
    Fs(FsEventKind, Vec<String>),
    /// The watcher reported an error.
    Error,
    /// Nothing arrived within the scan interval.
    Timeout,
    /// The watcher is gone.
    Disconnected,
}

/// What the watch loop does next.
#[derive(Debug)]
pub enum WatchAction {
    /// Wait `delay_seconds` (so that files being written settle), then
    /// convert these paths one by one (those still on disk).
    Normalize { paths: Vec<String>, delay_seconds: u64 },
    /// Ignore the event.
    Ignore,
    /// Log the watcher's error and go on.
    LogError,
    /// Scan all watched folders (catching missed events).
    FullScan,
    /// Leave the loop.
    Stop,
}

/// Only creations and renames can bring a new name.
pub open spec fn is_relevant_spec(kind: FsEventKind) -> bool {
    kind == FsEventKind::Create || kind == FsEventKind::Rename
}

/// Whether an event kind can bring a name to convert.
pub fn is_relevant_event(kind: FsEventKind) -> (b: bool)
    ensures
        b == is_relevant_spec(kind),
{
    match kind {
        FsEventKind::Create => true,
        FsEventKind::Rename => true,
        FsEventKind::Other => false,
    }
}

/// The next step of the watch loop for what it received: relevant events
/// convert their paths after the configured debounce delay, other events
/// are ignored, errors are logged, a quiet interval triggers a full scan,
/// and a closed watcher ends the loop.
pub fn watch_step(event: WatchEvent, config: &StickConfig) -> (a: WatchAction)
    ensures
        match event {
            WatchEvent::Fs(kind, paths) => if is_relevant_spec(kind) {
                a matches WatchAction::Normalize { paths: p, delay_seconds: d }
                    && p == paths && d == config.debounce_delay_seconds
            } else {
                a is Ignore
            },
            WatchEvent::Error => a is LogError,
            WatchEvent::Timeout => a is FullScan,
            WatchEvent::Disconnected => a is Stop,
        },
{
    match event {
        WatchEvent::Fs(kind, paths) => {
            if is_relevant_event(kind) {
                WatchAction::Normalize { paths, delay_seconds: config.debounce_delay_seconds }
            } else {
                WatchAction::Ignore
            }
        },
        WatchEvent::Error => WatchAction::LogError,
        WatchEvent::Timeout => WatchAction::FullScan,
        WatchEvent::Disconnected => WatchAction::Stop,
    }
}

/// The entries of `paths` whose flag in `keep` is set, in order.
pub open spec fn kept(paths: Seq<Seq<char>>, keep: Seq<bool>) -> Seq<Seq<char>>
    decreases paths.len(),
{
    if paths.len() == 0 {
        Seq::empty()
    } else if keep[paths.len() - 1] {
        kept(paths.drop_last(), keep).push(paths.last())
    } else {
        kept(paths.drop_last(), keep)
    }
}

/// The watched folders that are on disk (`exists[i]` says whether
/// `watch_paths[i]` is): those are registered with the watcher, and those
/// are scanned by a full scan; the others are passed over.
pub fn existing_watch_paths(config: &StickConfig, exists: &Vec<bool>) -> (r: Vec<String>)
    requires
        exists@.len() == config.watch_paths@.len(),
    ensures
        views(r@) == kept(views(config.watch_paths@), exists@),
{
    let mut r: Vec<String> = Vec::new();
    let mut i: usize = 0;
    assert(views(config.watch_paths@).subrange(0, 0) == Seq::<Seq<char>>::empty());
    assert(views(r@) =~= Seq::<Seq<char>>::empty());
    while i < config.watch_paths.len()
        invariant
            i <= config.watch_paths@.len(),
            exists@.len() == config.watch_paths@.len(),
            views(r@) == kept(views(config.watch_paths@).subrange(0, i as int), exists@),
        decreases config.watch_paths@.len() - i,
    {
        let ghost pre = views(config.watch_paths@).subrange(0, i + 1);
        assert(pre.drop_last() == views(config.watch_paths@).subrange(0, i as int));
        assert(pre.last() == config.watch_paths@[i as int]@);
        if exists[i] {
            let ghost before = r@;
            let c = config.watch_paths[i].clone();
            r.push(c);
            assert(views(r@) =~= views(before).push(c@));
        }
        i = i + 1;
    }
    assert(views(config.watch_paths@).subrange(0, config.watch_paths@.len() as int) == views(config.watch_paths@));
    r
}

/// Whether the watcher follows sub-folders too.
pub fn watch_recursively(config: &StickConfig) -> (b: bool)
    ensures
        b == config.recursive,
{
    config.recursive
}

/// The text of the notice for a conversion: the name before and after.
pub open spec fn notice_text(original: Seq<char>, renamed: Seq<char>) -> Seq<char> {
    original + " → "@ + renamed
}

/// The desktop notice for a conversion made while watching: only when
/// notifications are enabled; titled `stick`, it names the file before and
/// after.
pub fn rename_notice(config: &StickConfig, entry: &RenameEntry) -> (r: Option<CommandLine>)
    ensures
        r is Some <==> config.enable_notifications,
        r matches Some(cmd) ==> {
            &&& cmd.program@ == "osascript"@
            &&& cmd.args@.len() == 2
            &&& cmd.args@[0]@ == "-e"@
            &&& cmd.args@[1]@ == notification_script_spec(
                "stick"@,
                notice_text(entry.original_name@, entry.new_name@),
            )
        },
{
    if !config.enable_notifications {
        return None;
    }
    let mut message = entry.original_name.clone();
    message.append(" → ");
    message.append(entry.new_name.as_str());
    Some(send_notification("stick", message.as_str()))
}

} // verus!
