//! The configuration: its fields, its defaults, where it lives, and the checks
//! made before the service starts.

use vstd::prelude::*;
use crate::path::{join_path, join_spec};

verus! {

/// All settings of stick, as kept in `~/.config/stick/config.json`.
#[derive(Clone, Debug)]
pub struct StickConfig {
    /// Folders to watch.
    pub watch_paths: Vec<String>,
    /// Whether sub-folders are walked too.
    pub recursive: bool,
    /// Whether names starting with `.` are left alone.
    pub exclude_hidden: bool,
    /// Whether symbolic links are left alone.
    pub exclude_symlinks: bool,
    /// Whether names ending in `~` are left alone.
    pub exclude_temp_files: bool,
    /// Extensions (with their dot) whose files are left alone.
    pub exclude_extensions: Vec<String>,
    /// Folder names whose contents are left alone.
    pub exclude_directories: Vec<String>,
    /// Where the log files go.
    pub log_path: String,
    /// Seconds between full scans of the watcher.
    pub scan_interval_seconds: u64,
    /// Whether a scan asks before renaming.
    pub confirm_before_scan: bool,
    /// Log level (`info`, `debug`, ...).
    pub log_level: String,
    /// Whether desktop notifications are sent.
    pub enable_notifications: bool,
    /// Seconds to wait after a change before converting.
    pub debounce_delay_seconds: u64,
    /// Whether the service starts at login.
    pub auto_start: bool,
}

/// The texts held by a list of strings.
pub open spec fn views(v: Seq<String>) -> Seq<Seq<char>> {
    Seq::new(v.len(), |i: int| v[i]@)
}

/// Extensions excluded by default: temporary and partial downloads.
pub open spec fn default_extensions() -> Seq<Seq<char>> {
    seq![".tmp"@, ".swp"@, ".swo"@, ".bak"@, ".crdownload"@, ".part"@, ".download"@]
}

/// Folder names excluded by default: version control, editors, build output.
pub open spec fn default_directories() -> Seq<Seq<char>> {
    seq![".git"@, "node_modules"@, ".idea"@, ".vscode"@, "__pycache__"@, ".venv"@, "target"@, ".DS_Store"@]
}

/// Seconds between full scans by default.
pub const DEFAULT_SCAN_INTERVAL_SECONDS: u64 = 5;

/// Seconds of debounce by default.
pub const DEFAULT_DEBOUNCE_SECONDS: u64 = 2;

/// The log folder by default: `~/logs/stick`, or `/tmp/stick/logs` without a home.
pub open spec fn default_log_path(home: Option<Seq<char>>) -> Seq<char> {
    match home {
        Some(h) => join_spec(join_spec(h, "logs"@), "stick"@),
        None => "/tmp/stick/logs"@,
    }
}

/// `c` is the default configuration, with `log_path` as its log folder.
pub open spec fn is_default_config(c: StickConfig, log_path: Seq<char>) -> bool {
    &&& c.watch_paths@.len() == 0
    &&& c.recursive
    &&& c.exclude_hidden
    &&& c.exclude_symlinks
    &&& c.exclude_temp_files
    &&& views(c.exclude_extensions@) == default_extensions()
    &&& views(c.exclude_directories@) == default_directories()
    &&& c.log_path@ == log_path
    &&& c.scan_interval_seconds == DEFAULT_SCAN_INTERVAL_SECONDS
    &&& c.confirm_before_scan
    &&& c.log_level@ == "info"@
    &&& !c.enable_notifications
    &&& c.debounce_delay_seconds == DEFAULT_DEBOUNCE_SECONDS
    &&& c.auto_start
}

/// `dirs::home_dir`: the current user's home folder, taken as text (lossily).
/// It comes from the environment, so nothing is stated of it.
#[verifier::external_body]
pub fn home_dir() -> (r: Option<String>) {
    dirs::home_dir().map(|h| h.to_string_lossy().into_owned())
}

fn strings_of(items: &[&str]) -> (v: Vec<String>)
    ensures
        views(v@) == Seq::new(items@.len(), |i: int| items@[i]@),
{
    let mut v: Vec<String> = Vec::new();
    let mut i: usize = 0;
    while i < items.len()
        invariant
            i <= items@.len(),
            v@.len() == i,
            views(v@) == Seq::new(i as nat, |j: int| items@[j]@),
        decreases items@.len() - i,
    {
        let ghost before = v@;
        let item: &str = items[i];
        assert(item@ == items@[i as int]@);
        let s = item.to_owned();
        v.push(s);
        assert(v@ == before.push(s));
        assert(views(v@) =~= Seq::new((i + 1) as nat, |j: int| items@[j]@)) by {
            assert(views(before) == Seq::new(i as nat, |j: int| items@[j]@));
            assert forall|j: int| 0 <= j < i + 1 implies #[trigger] views(v@)[j] == items@[j]@ by {
                if j < i {
                    assert(v@[j] == before[j]);
                    assert(views(before)[j] == items@[j]@);
                }
            }
        }
        i = i + 1;
    }
    v
}

/// The default extension list.
pub fn default_exclude_extensions() -> (v: Vec<String>)
    ensures
        views(v@) == default_extensions(),
{
    let items: [&str; 7] = [".tmp", ".swp", ".swo", ".bak", ".crdownload", ".part", ".download"];
    let v = strings_of(&items);
    assert(views(v@) =~= default_extensions());
    v
}

/// The default folder list.
pub fn default_exclude_directories() -> (v: Vec<String>)
    ensures
        views(v@) == default_directories(),
{
    let items: [&str; 8] = [".git", "node_modules", ".idea", ".vscode", "__pycache__", ".venv", "target", ".DS_Store"];
    let v = strings_of(&items);
    assert(views(v@) =~= default_directories());
    v
}

impl StickConfig {
    /// The default configuration for a user whose home folder is `home`.
    pub fn default_with_home(home: Option<String>) -> (c: StickConfig)
        ensures
            is_default_config(c, default_log_path(opt_string_view(home))),
    {
        let log_path = match home {
            Some(h) => {
                let logs = join_path(h.as_str(), "logs");
                join_path(logs.as_str(), "stick")
            },
            None => "/tmp/stick/logs".to_owned(),
        };
        StickConfig {
            watch_paths: Vec::new(),
            recursive: true,
            exclude_hidden: true,
            exclude_symlinks: true,
            exclude_temp_files: true,
            exclude_extensions: default_exclude_extensions(),
            exclude_directories: default_exclude_directories(),
            log_path,
            scan_interval_seconds: DEFAULT_SCAN_INTERVAL_SECONDS,
            confirm_before_scan: true,
            log_level: "info".to_owned(),
            enable_notifications: false,
            debounce_delay_seconds: DEFAULT_DEBOUNCE_SECONDS,
            auto_start: true,
        }
    }
}

impl Default for StickConfig {
    /// The default configuration for the current user.
    fn default() -> (c: StickConfig)
        ensures
            exists|home: Option<Seq<char>>| is_default_config(c, #[trigger] default_log_path(home)),
    {
        let home = home_dir();
        let c = StickConfig::default_with_home(home);
        assert(is_default_config(c, default_log_path(opt_string_view(home))));
        c
    }
}

/// What the disk says of a watched path.
#[derive(Clone, Copy, Debug, PartialEq, Eq)]
pub enum PathState {
    /// Nothing is there.
    Missing,
    /// Something is there, but not a folder.
    NotDirectory,
    /// A folder is there.
    Directory,
}

/// Errors of the configuration paths.
#[derive(Clone, Copy, Debug, PartialEq, Eq)]
pub enum ConfigError {
    /// The home folder could not be found.
    NoHomeDir,
}

impl ConfigError {
    /// The message shown for the error.
    pub fn message(&self) -> (m: String)
        ensures
            m@ == "홈 디렉토리를 찾을 수 없습니다"@,
    {
        "홈 디렉토리를 찾을 수 없습니다".to_owned()
    }
}

/// Warning when no folder is watched.
pub open spec fn no_watch_paths_warning() -> Seq<char> {
    "감시할 폴더가 설정되지 않았습니다. 'stick config'로 추가해주세요."@
}

/// Warning for one watched path in the given state (none for a folder).
pub open spec fn path_warning(p: Seq<char>, state: PathState) -> Seq<Seq<char>> {
    match state {
        PathState::Missing => seq!["경로가 존재하지 않습니다: "@ + p],
        PathState::NotDirectory => seq!["디렉토리가 아닙니다: "@ + p],
        PathState::Directory => Seq::empty(),
    }
}

/// Warnings for the watched paths, in their order.
pub open spec fn path_warnings(paths: Seq<Seq<char>>, states: Seq<PathState>) -> Seq<Seq<char>>
    decreases paths.len(),
{
    if paths.len() == 0 {
        Seq::empty()
    } else {
        path_warnings(paths.drop_last(), states.subrange(0, paths.len() - 1))
            + path_warning(paths.last(), states[paths.len() - 1])
    }
}

/// Warning when the folder above the log path is missing.
pub open spec fn log_parent_warning(parent: Seq<char>) -> Seq<char> {
    "로그 경로의 상위 디렉토리가 존재하지 않습니다: "@ + parent
}

/// Warning when the folder above the log path cannot be written to.
pub open spec fn log_parent_unwritable_warning(parent: Seq<char>) -> Seq<char> {
    "로그 경로의 상위 디렉토리에 쓰기 권한이 없습니다: "@ + parent
}

/// All warnings of `validate`, in order.
pub open spec fn validate_spec(
    c: StickConfig,
    states: Seq<PathState>,
    log_parent: Option<Seq<char>>,
    log_parent_exists: bool,
    log_parent_writable: bool,
) -> Seq<Seq<char>> {
    (if c.watch_paths@.len() == 0 { seq![no_watch_paths_warning()] } else { Seq::empty() })
        + path_warnings(views(c.watch_paths@), states)
        + (match log_parent {
            Some(p) => if !log_parent_exists {
                seq![log_parent_warning(p)]
            } else if !log_parent_writable {
                seq![log_parent_unwritable_warning(p)]
            } else {
                Seq::empty()
            },
            None => Seq::empty(),
        })
}

/// The text without its leading slashes.
pub open spec fn strip_slashes(p: Seq<char>) -> Seq<char>
    decreases p.len(),
{
    if p.len() > 0 && p[0] == '/' { strip_slashes(p.drop_first()) } else { p }
}

/// The log folder: a leading `~` stands for the home folder (`~` alone is
/// the home folder, `~/x` is `x` inside it), when there is one.
pub open spec fn log_dir_spec(p: Seq<char>, home: Option<Seq<char>>) -> Seq<char> {
    if p.len() > 0 && p[0] == '~' && home is Some {
        let rest = strip_slashes(p.drop_first());
        if rest.len() == 0 { home->0 } else { join_spec(home->0, rest) }
    } else {
        p
    }
}

/// Where the configuration file is kept under a home folder.
pub open spec fn config_file_for(home: Seq<char>) -> Seq<char> {
    join_spec(join_spec(join_spec(home, ".config"@), "stick"@), "config.json"@)
}

/// Where the process id file is kept under a home folder.
pub open spec fn pid_file_for(home: Seq<char>) -> Seq<char> {
    join_spec(join_spec(join_spec(home, ".config"@), "stick"@), "stick.pid"@)
}

fn prefixed(prefix: &str, rest: &str) -> (s: String)
    ensures
        s@ == prefix@ + rest@,
{
    let mut s = prefix.to_owned();
    s.append(rest);
    s
}

impl StickConfig {
    /// Warnings about the configuration: no folder watched, a watched path
    /// that is missing or not a folder, a folder above the log path that is
    /// missing or cannot be written to. `states[i]` is what the disk holds at
    /// `watch_paths[i]`; `log_parent` is the folder above `log_path`, if it
    /// has one, `log_parent_exists` whether that folder is there, and
    /// `log_parent_writable` whether this process may write into it.
    pub fn validate(
        &self,
        states: &Vec<PathState>,
        log_parent: Option<String>,
        log_parent_exists: bool,
        log_parent_writable: bool,
    ) -> (warnings: Vec<String>)
        requires
            states@.len() == self.watch_paths@.len(),
        ensures
            views(warnings@) == validate_spec(
                *self,
                states@,
                opt_string_view(log_parent),
                log_parent_exists,
                log_parent_writable,
            ),
    {
        let mut warnings: Vec<String> = Vec::new();
        if self.watch_paths.len() == 0 {
            warnings.push("감시할 폴더가 설정되지 않았습니다. 'stick config'로 추가해주세요.".to_owned());
        }
        let ghost head = views(warnings@);
        assert(head == (if self.watch_paths@.len() == 0 { seq![no_watch_paths_warning()] } else { Seq::<Seq<char>>::empty() }));
        let mut i: usize = 0;
        while i < self.watch_paths.len()
            invariant
                i <= self.watch_paths@.len(),
                states@.len() == self.watch_paths@.len(),
                views(warnings@) == head + path_warnings(views(self.watch_paths@).subrange(0, i as int), states@.subrange(0, i as int)),
            decreases self.watch_paths@.len() - i,
        {
            let ghost before = warnings@;
            let p: &String = &self.watch_paths[i];
            match states[i] {
                PathState::Missing => {
                    warnings.push(prefixed("경로가 존재하지 않습니다: ", p.as_str()));
                },
                PathState::NotDirectory => {
                    warnings.push(prefixed("디렉토리가 아닙니다: ", p.as_str()));
                },
                PathState::Directory => {},
            }
            proof {
                let ps = views(self.watch_paths@).subrange(0, i + 1);
                let ss = states@.subrange(0, i + 1);
                assert(ps.drop_last() == views(self.watch_paths@).subrange(0, i as int));
                assert(ss.subrange(0, i as int) == states@.subrange(0, i as int));
                assert(ps.last() == p@);
                assert(views(warnings@) =~= views(before) + path_warning(p@, states@[i as int]));
                assert(path_warnings(ps, ss) == path_warnings(ps.drop_last(), ss.subrange(0, i as int)) + path_warning(p@, states@[i as int]));
            }
            i = i + 1;
        }
        assert(views(self.watch_paths@).subrange(0, i as int) == views(self.watch_paths@));
        assert(states@.subrange(0, i as int) == states@);
        let ghost mid = warnings@;
        match log_parent {
            Some(parent) => {
                if !log_parent_exists {
                    warnings.push(prefixed("로그 경로의 상위 디렉토리가 존재하지 않습니다: ", parent.as_str()));
                } else if !log_parent_writable {
                    warnings.push(prefixed("로그 경로의 상위 디렉토리에 쓰기 권한이 없습니다: ", parent.as_str()));
                }
            },
            None => {},
        }
        assert(views(warnings@) =~= validate_spec(
            *self,
            states@,
            opt_string_view(log_parent),
            log_parent_exists,
            log_parent_writable,
        ));
        warnings
    }

    /// The log folder when the home folder is `home` (see `log_dir_spec`).
    pub fn log_dir_with_home(&self, home: Option<String>) -> (d: String)
        ensures
            d@ == log_dir_spec(self.log_path@, opt_string_view(home)),
    {
        let chars = crate::text::chars_of(self.log_path.as_str());
        if chars.len() > 0 && chars[0] == '~' {
            match home {
                Some(h) => {
                    let mut i: usize = 1;
                    while i < chars.len() && chars[i] == '/'
                        invariant
                            1 <= i <= chars@.len(),
                            chars@.len() > 0,
                            strip_slashes(chars@.drop_first())
                                == strip_slashes(chars@.subrange(i as int, chars@.len() as int)),
                        decreases chars@.len() - i,
                    {
                        proof {
                            let t = chars@.subrange(i as int, chars@.len() as int);
                            assert(t.drop_first() == chars@.subrange(i + 1, chars@.len() as int));
                        }
                        i = i + 1;
                    }
                    let mut rest: Vec<char> = Vec::new();
                    let start = i;
                    while i < chars.len()
                        invariant
                            start <= i <= chars@.len(),
                            rest@ == chars@.subrange(start as int, i as int),
                        decreases chars@.len() - i,
                    {
                        rest.push(chars[i]);
                        i = i + 1;
                    }
                    proof {
                        assert(chars@.drop_first() == chars@.subrange(1, chars@.len() as int));
                        let t = chars@.subrange(start as int, chars@.len() as int);
                        assert(t == rest@);
                        assert(t.len() == 0 || t[0] != '/');
                    }
                    if rest.len() == 0 {
                        return h;
                    }
                    let rest_text = crate::text::string_from_chars(&rest);
                    return join_path(h.as_str(), rest_text.as_str());
                },
                None => {},
            }
        }
        self.log_path.clone()
    }

    /// The log folder for the current user.
    pub fn log_dir(&self) -> (d: String)
        ensures
            exists|home: Option<Seq<char>>| d@ == #[trigger] log_dir_spec(self.log_path@, home),
    {
        let home = home_dir();
        let d = self.log_dir_with_home(home);
        assert(d@ == log_dir_spec(self.log_path@, opt_string_view(home)));
        d
    }

    /// The configuration file under the home folder `home`.
    pub fn config_file_path_in(home: &str) -> (p: String)
        ensures
            p@ == config_file_for(home@),
    {
        let a = join_path(home, ".config");
        let b = join_path(a.as_str(), "stick");
        join_path(b.as_str(), "config.json")
    }

    /// The process id file under the home folder `home`.
    pub fn pid_file_path_in(home: &str) -> (p: String)
        ensures
            p@ == pid_file_for(home@),
    {
        let a = join_path(home, ".config");
        let b = join_path(a.as_str(), "stick");
        join_path(b.as_str(), "stick.pid")
    }

    /// The configuration file of the current user (`~/.config/stick/config.json`);
    /// an error when no home folder is found.
    pub fn config_file_path() -> (r: Result<String, ConfigError>)
        ensures
            match r {
                Ok(p) => exists|home: Seq<char>| p@ == #[trigger] config_file_for(home),
                Err(e) => e == ConfigError::NoHomeDir,
            },
    {
        match home_dir() {
            Some(h) => Ok(StickConfig::config_file_path_in(h.as_str())),
            None => Err(ConfigError::NoHomeDir),
        }
    }

    /// The process id file of the current user (`~/.config/stick/stick.pid`);
    /// an error when no home folder is found.
    pub fn pid_file_path() -> (r: Result<String, ConfigError>)
        ensures
            match r {
                Ok(p) => exists|home: Seq<char>| p@ == #[trigger] pid_file_for(home),
                Err(e) => e == ConfigError::NoHomeDir,
            },
    {
        match home_dir() {
            Some(h) => Ok(StickConfig::pid_file_path_in(h.as_str())),
            None => Err(ConfigError::NoHomeDir),
        }
    }
}

/// The view of an optional string.
pub open spec fn opt_string_view(o: Option<String>) -> Option<Seq<char>> {
    match o {
        Some(s) => Some(s@),
        None => None,
    }
}

} // verus!
