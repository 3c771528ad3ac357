//! The background service: which service manager runs it, the files that
//! register it, and the steps that start, stop and query it.

use vstd::prelude::*;
use crate::config::views;
use crate::notifier::CommandLine;
use crate::path::{join_path, join_spec};
use crate::text::{decimal, decimal_string, parse_u64_spec};

verus! {

/// The operating system stick runs on.
#[derive(Clone, Copy, Debug, PartialEq, Eq)]
pub enum TargetOs {
    /// macOS.
    MacOs,
    /// Linux.
    Linux,
    /// Windows.
    Windows,
    /// Anything else.
    Other,
}

/// The service manager that runs the watcher.
#[derive(Clone, Copy, Debug, PartialEq, Eq)]
pub enum ServiceManager {
    /// launchd (macOS).
    Launchd,
    /// systemd (Linux).
    Systemd,
}

/// Why the service cannot be handled.
#[derive(Clone, Copy, Debug, PartialEq, Eq)]
pub enum DaemonError {
    /// Linux without `systemctl`.
    NoSystemd,
    /// Windows keeps names composed: no watcher is needed.
    WindowsNeedsNone,
    /// Another operating system.
    UnsupportedOs,
    /// The home folder could not be found.
    NoHomeDir,
    /// The running program's path could not be found.
    NoExecutable,
}

/// The message of an error.
pub open spec fn daemon_error_message(e: DaemonError) -> Seq<char> {
    match e {
        DaemonError::NoSystemd => "systemd를 찾을 수 없습니다. 현재 Linux 환경에서 systemd가 필요합니다."@,
        DaemonError::WindowsNeedsNone => "💡 Windows 환경은 파일명이 항상 자소 결합(NFC) 형태로 자동 저장되므로 실시간 감시 백그라운드 데몬이 필요하지 않습니다.\n\n맥 사용자가 공유하여 이미 깨진 파일들을 터치 한 번에 깔끔히 치료하려면 아래 명령어를 사용해보세요!\n👉 stick scan\n\n스캔 대상 폴더 및 규칙을 편리하게 추가하려면:\n👉 stick config"@,
        DaemonError::UnsupportedOs => "지원하지 않는 운영체제입니다. macOS, Linux, Windows 환경에서 사용할 수 있습니다."@,
        DaemonError::NoHomeDir => "홈 디렉토리를 찾을 수 없습니다"@,
        DaemonError::NoExecutable => "현재 실행 파일 경로를 가져올 수 없습니다"@,
    }
}

impl DaemonError {
    /// The message shown for the error.
    pub fn message(&self) -> (m: String)
        ensures
            m@ == daemon_error_message(*self),
    {
        match self {
            DaemonError::NoSystemd => "systemd를 찾을 수 없습니다. 현재 Linux 환경에서 systemd가 필요합니다.".to_owned(),
            DaemonError::WindowsNeedsNone => "💡 Windows 환경은 파일명이 항상 자소 결합(NFC) 형태로 자동 저장되므로 실시간 감시 백그라운드 데몬이 필요하지 않습니다.\n\n맥 사용자가 공유하여 이미 깨진 파일들을 터치 한 번에 깔끔히 치료하려면 아래 명령어를 사용해보세요!\n👉 stick scan\n\n스캔 대상 폴더 및 규칙을 편리하게 추가하려면:\n👉 stick config".to_owned(),
            DaemonError::UnsupportedOs => "지원하지 않는 운영체제입니다. macOS, Linux, Windows 환경에서 사용할 수 있습니다.".to_owned(),
            DaemonError::NoHomeDir => "홈 디렉토리를 찾을 수 없습니다".to_owned(),
            DaemonError::NoExecutable => "현재 실행 파일 경로를 가져올 수 없습니다".to_owned(),
        }
    }
}

/// The service manager for an operating system: launchd on macOS, systemd
/// on Linux when `systemctl` is there; an error otherwise.
pub open spec fn detect_spec(os: TargetOs, has_systemctl: bool) -> Result<ServiceManager, DaemonError> {
    match os {
        TargetOs::MacOs => Ok(ServiceManager::Launchd),
        TargetOs::Linux => if has_systemctl { Ok(ServiceManager::Systemd) } else { Err(DaemonError::NoSystemd) },
        TargetOs::Windows => Err(DaemonError::WindowsNeedsNone),
        TargetOs::Other => Err(DaemonError::UnsupportedOs),
    }
}

/// Picks the service manager (see `detect_spec`); `has_systemctl` says
/// whether `systemctl` is installed (asked on Linux only).
pub fn detect_service_manager(os: TargetOs, has_systemctl: bool) -> (r: Result<ServiceManager, DaemonError>)
    ensures
        r == detect_spec(os, has_systemctl),
{
    match os {
        TargetOs::MacOs => Ok(ServiceManager::Launchd),
        TargetOs::Linux => if has_systemctl { Ok(ServiceManager::Systemd) } else { Err(DaemonError::NoSystemd) },
        TargetOs::Windows => Err(DaemonError::WindowsNeedsNone),
        TargetOs::Other => Err(DaemonError::UnsupportedOs),
    }
}

// ── Service files ────────────────────────────────────────────────────────

/// The launchd job description up to the program path.
pub open spec fn plist_part1() -> Seq<char> {
    "<?xml version=\"1.0\" encoding=\"UTF-8\"?>\n<!DOCTYPE plist PUBLIC \"-//Apple//DTD PLIST 1.0//EN\"\n  \"http://www.apple.com/DTDs/PropertyList-1.0.dtd\">\n<plist version=\"1.0\">\n<dict>\n    <key>Label</key>\n    <string>com.stick.agent</string>\n\n    <key>ProgramArguments</key>\n    <array>\n        <string>"@
}

/// The launchd job description between the program path and the log folder.
pub open spec fn plist_part2() -> Seq<char> {
    "</string>\n        <string>watch</string>\n    </array>\n\n    <key>RunAtLoad</key>\n    <true/>\n\n    <key>KeepAlive</key>\n    <true/>\n\n    <key>StandardOutPath</key>\n    <string>"@
}

/// The launchd job description between the two log paths.
pub open spec fn plist_part3() -> Seq<char> {
    "/stick_stdout.log</string>\n\n    <key>StandardErrorPath</key>\n    <string>"@
}

/// The end of the launchd job description.
pub open spec fn plist_part4() -> Seq<char> {
    "/stick_stderr.log</string>\n\n    <key>ProcessType</key>\n    <string>Background</string>\n</dict>\n</plist>"@
}

/// The launchd job: runs `<binary> watch` at load, keeps it alive, and
/// sends its output to `stick_stdout.log` and `stick_stderr.log` in the log folder.
pub open spec fn plist_spec(binary: Seq<char>, log_dir: Seq<char>) -> Seq<char> {
    plist_part1() + binary + plist_part2() + log_dir + plist_part3() + log_dir + plist_part4()
}

/// The launchd job description for the program `stick_binary` logging to `log_dir`.
pub fn generate_launchd_plist(stick_binary: &str, log_dir: &str) -> (r: String)
    ensures
        r@ == plist_spec(stick_binary@, log_dir@),
{
    let mut r = "<?xml version=\"1.0\" encoding=\"UTF-8\"?>\n<!DOCTYPE plist PUBLIC \"-//Apple//DTD PLIST 1.0//EN\"\n  \"http://www.apple.com/DTDs/PropertyList-1.0.dtd\">\n<plist version=\"1.0\">\n<dict>\n    <key>Label</key>\n    <string>com.stick.agent</string>\n\n    <key>ProgramArguments</key>\n    <array>\n        <string>".to_owned();
    r.append(stick_binary);
    r.append("</string>\n        <string>watch</string>\n    </array>\n\n    <key>RunAtLoad</key>\n    <true/>\n\n    <key>KeepAlive</key>\n    <true/>\n\n    <key>StandardOutPath</key>\n    <string>");
    r.append(log_dir);
    r.append("/stick_stdout.log</string>\n\n    <key>StandardErrorPath</key>\n    <string>");
    r.append(log_dir);
    r.append("/stick_stderr.log</string>\n\n    <key>ProcessType</key>\n    <string>Background</string>\n</dict>\n</plist>");
    r
}

/// The systemd unit up to the program path.
pub open spec fn unit_part1() -> Seq<char> {
    "[Unit]\nDescription=stick - 한글 파일명 NFC 정규화 서비스\nAfter=default.target\n\n[Service]\nType=simple\nExecStart="@
}

/// The systemd unit after the program path.
pub open spec fn unit_part2() -> Seq<char> {
    " watch\nRestart=on-failure\nRestartSec=5\nEnvironment=STICK_LOG=info\n\n[Install]\nWantedBy=default.target\n"@
}

/// The systemd unit: runs `<binary> watch`, restarts it on failure.
pub open spec fn unit_spec(binary: Seq<char>) -> Seq<char> {
    unit_part1() + binary + unit_part2()
}

/// The systemd unit for the program `stick_binary`.
pub fn generate_systemd_unit(stick_binary: &str) -> (r: String)
    ensures
        r@ == unit_spec(stick_binary@),
{
    let mut r = "[Unit]\nDescription=stick - 한글 파일명 NFC 정규화 서비스\nAfter=default.target\n\n[Service]\nType=simple\nExecStart=".to_owned();
    r.append(stick_binary);
    r.append(" watch\nRestart=on-failure\nRestartSec=5\nEnvironment=STICK_LOG=info\n\n[Install]\nWantedBy=default.target\n");
    r
}

/// `~/Library/LaunchAgents` for the home folder `home`.
pub open spec fn launch_agents_for(home: Seq<char>) -> Seq<char> {
    join_spec(join_spec(home, "Library"@), "LaunchAgents"@)
}

/// `~/Library/LaunchAgents/com.stick.agent.plist`.
pub open spec fn plist_path_for(home: Seq<char>) -> Seq<char> {
    join_spec(launch_agents_for(home), "com.stick.agent.plist"@)
}

/// `~/.config/systemd/user`.
pub open spec fn systemd_user_dir_for(home: Seq<char>) -> Seq<char> {
    join_spec(join_spec(join_spec(home, ".config"@), "systemd"@), "user"@)
}

/// `~/.config/systemd/user/stick.service`.
pub open spec fn unit_path_for(home: Seq<char>) -> Seq<char> {
    join_spec(systemd_user_dir_for(home), "stick.service"@)
}

fn launch_agents_dir(home: &str) -> (r: String)
    ensures
        r@ == launch_agents_for(home@),
{
    let a = join_path(home, "Library");
    join_path(a.as_str(), "LaunchAgents")
}

fn systemd_user_dir(home: &str) -> (r: String)
    ensures
        r@ == systemd_user_dir_for(home@),
{
    let a = join_path(home, ".config");
    let b = join_path(a.as_str(), "systemd");
    join_path(b.as_str(), "user")
}

// ── Steps ────────────────────────────────────────────────────────────────

/// What an error message of a step says: a label, then the path (quoted
/// when `quoted`).
#[derive(Debug)]
pub struct ErrorContext {
    /// The label.
    pub label: String,
    /// The path concerned.
    pub path: String,
    /// Whether the path is shown quoted.
    pub quoted: bool,
}

/// What happens with the exit status of a program run by a step.
#[derive(Debug)]
pub enum OnExit {
    /// Nothing (and a failure to start it is ignored too).
    Ignore,
    /// An unsuccessful exit fails the plan with this label and the program's error output.
    Require(String),
    /// Show whether the service is running, with the program's output when it is.
    ReportRunning,
    /// Show the program's output.
    PrintOutput,
}

/// One step of a plan; the caller performs the steps in order and stops at
/// the first that fails.
#[derive(Debug)]
pub enum ServiceStep {
    /// Create a folder and its parents.
    CreateDir { path: String, context: ErrorContext },
    /// Write a file.
    WriteFile { path: String, content: String, context: ErrorContext },
    /// Run a program; `spawn_context` labels a failure to start it.
    Run { program: String, args: Vec<String>, spawn_context: Option<String>, on_exit: OnExit },
    /// End the plan successfully when nothing is at the path.
    EndIfMissing { path: String },
    /// Remove a file.
    RemoveFile { path: String, context: ErrorContext },
    /// Remove a file if it is there, ignoring failures.
    RemoveIfExists { path: String },
    /// Fail the plan with this error.
    Fail(DaemonError),
}

/// An error context as texts.
pub struct ContextView {
    pub label: Seq<char>,
    pub path: Seq<char>,
    pub quoted: bool,
}

/// An exit rule as texts.
pub enum ExitView {
    Ignore,
    Require(Seq<char>),
    ReportRunning,
    PrintOutput,
}

/// A step as texts.
pub enum StepView {
    CreateDir(Seq<char>, ContextView),
    WriteFile(Seq<char>, Seq<char>, ContextView),
    Run(Seq<char>, Seq<Seq<char>>, Option<Seq<char>>, ExitView),
    EndIfMissing(Seq<char>),
    RemoveFile(Seq<char>, ContextView),
    RemoveIfExists(Seq<char>),
    Fail(DaemonError),
}

pub open spec fn context_view(c: ErrorContext) -> ContextView {
    ContextView { label: c.label@, path: c.path@, quoted: c.quoted }
}

pub open spec fn exit_view(e: OnExit) -> ExitView {
    match e {
        OnExit::Ignore => ExitView::Ignore,
        OnExit::Require(l) => ExitView::Require(l@),
        OnExit::ReportRunning => ExitView::ReportRunning,
        OnExit::PrintOutput => ExitView::PrintOutput,
    }
}

pub open spec fn step_view(s: ServiceStep) -> StepView {
    match s {
        ServiceStep::CreateDir { path, context } => StepView::CreateDir(path@, context_view(context)),
        ServiceStep::WriteFile { path, content, context } => StepView::WriteFile(path@, content@, context_view(context)),
        ServiceStep::Run { program, args, spawn_context, on_exit } => StepView::Run(
            program@,
            views(args@),
            crate::path::opt_view(spawn_context),
            exit_view(on_exit),
        ),
        ServiceStep::EndIfMissing { path } => StepView::EndIfMissing(path@),
        ServiceStep::RemoveFile { path, context } => StepView::RemoveFile(path@, context_view(context)),
        ServiceStep::RemoveIfExists { path } => StepView::RemoveIfExists(path@),
        ServiceStep::Fail(e) => StepView::Fail(e),
    }
}

/// A plan as texts.
pub open spec fn plan_view(p: Seq<ServiceStep>) -> Seq<StepView> {
    Seq::new(p.len(), |i: int| step_view(p[i]))
}

pub open spec fn ctx(label: Seq<char>, path: Seq<char>, quoted: bool) -> ContextView {
    ContextView { label, path, quoted }
}

/// Registering and starting the launchd job.
pub open spec fn launchd_start_plan(home: Seq<char>, binary: Seq<char>, log_dir: Seq<char>) -> Seq<StepView> {
    let agents = launch_agents_for(home);
    let plist = plist_path_for(home);
    seq![
        StepView::CreateDir(agents, ctx("LaunchAgents 디렉토리 생성 실패"@, agents, true)),
        StepView::CreateDir(log_dir, ctx("로그 디렉토리 생성 실패"@, log_dir, false)),
        StepView::WriteFile(plist, plist_spec(binary, log_dir), ctx("plist 파일 생성 실패"@, plist, true)),
        StepView::Run("launchctl"@, seq!["unload"@, plist], None, ExitView::Ignore),
        StepView::Run("launchctl"@, seq!["load"@, plist], Some("launchctl load 실행 실패"@), ExitView::Require("launchctl load 실패"@)),
    ]
}

/// Installing and starting the systemd unit.
pub open spec fn systemd_start_plan(home: Seq<char>, binary: Seq<char>) -> Seq<StepView> {
    let dir = systemd_user_dir_for(home);
    let unit = unit_path_for(home);
    seq![
        StepView::CreateDir(dir, ctx("systemd user 디렉토리 생성 실패"@, dir, true)),
        StepView::WriteFile(unit, unit_spec(binary), ctx("unit 파일 생성 실패"@, unit, true)),
        StepView::Run("systemctl"@, seq!["--user"@, "daemon-reload"@], Some("systemctl daemon-reload 실패"@), ExitView::Require("daemon-reload 실패"@)),
        StepView::Run("systemctl"@, seq!["--user"@, "enable"@, "--now"@, "stick.service"@], Some("systemctl enable 실패"@), ExitView::Require("서비스 활성화 실패"@)),
    ]
}

/// Stopping and removing the launchd job (nothing to do when it is not registered).
pub open spec fn launchd_stop_plan(home: Seq<char>) -> Seq<StepView> {
    let plist = plist_path_for(home);
    seq![
        StepView::EndIfMissing(plist),
        StepView::Run("launchctl"@, seq!["unload"@, plist], Some("launchctl unload 실행 실패"@), ExitView::Require("launchctl unload 실패"@)),
        StepView::RemoveFile(plist, ctx("plist 파일 삭제 실패"@, plist, true)),
    ]
}

/// Stopping, disabling and removing the systemd unit.
pub open spec fn systemd_stop_plan(home: Option<Seq<char>>) -> Seq<StepView> {
    let head = seq![
        StepView::Run("systemctl"@, seq!["--user"@, "stop"@, "stick.service"@], Some("systemctl stop 실패"@), ExitView::Require("서비스 중지 실패"@)),
        StepView::Run("systemctl"@, seq!["--user"@, "disable"@, "stick.service"@], None, ExitView::Ignore),
    ];
    match home {
        Some(h) => head + seq![
            StepView::RemoveIfExists(unit_path_for(h)),
            StepView::Run("systemctl"@, seq!["--user"@, "daemon-reload"@], None, ExitView::Ignore),
        ],
        None => head.push(StepView::Fail(DaemonError::NoHomeDir)),
    }
}

/// Asking the service manager about the job.
pub open spec fn status_plan(m: ServiceManager) -> Seq<StepView> {
    match m {
        ServiceManager::Launchd => seq![
            StepView::Run("launchctl"@, seq!["list"@, "com.stick.agent"@], Some("launchctl list 실행 실패"@), ExitView::ReportRunning),
        ],
        ServiceManager::Systemd => seq![
            StepView::Run("systemctl"@, seq!["--user"@, "status"@, "stick.service"@], Some("systemctl status 실패"@), ExitView::PrintOutput),
        ],
    }
}

/// The plan that starts the service, or why there is none.
pub open spec fn start_spec(
    os: TargetOs,
    has_systemctl: bool,
    home: Option<Seq<char>>,
    binary: Option<Seq<char>>,
    log_dir: Seq<char>,
) -> Result<Seq<StepView>, DaemonError> {
    match detect_spec(os, has_systemctl) {
        Err(e) => Err(e),
        Ok(m) => match home {
            None => Err(DaemonError::NoHomeDir),
            Some(h) => match binary {
                None => Err(DaemonError::NoExecutable),
                Some(b) => match m {
                    ServiceManager::Launchd => Ok(launchd_start_plan(h, b, log_dir)),
                    ServiceManager::Systemd => Ok(systemd_start_plan(h, b)),
                },
            },
        },
    }
}

/// The plan that stops the service, or why there is none.
pub open spec fn stop_spec(os: TargetOs, has_systemctl: bool, home: Option<Seq<char>>) -> Result<Seq<StepView>, DaemonError> {
    match detect_spec(os, has_systemctl) {
        Err(e) => Err(e),
        Ok(ServiceManager::Launchd) => match home {
            None => Err(DaemonError::NoHomeDir),
            Some(h) => Ok(launchd_stop_plan(h)),
        },
        Ok(ServiceManager::Systemd) => Ok(systemd_stop_plan(home)),
    }
}

/// A step that runs `program` with `args` and fails the plan when the
/// program exits unsuccessfully.
pub open spec fn runs_required(step: StepView, program: Seq<char>, args: Seq<Seq<char>>) -> bool {
    step matches StepView::Run(p, a, _, ExitView::Require(_)) && p == program && a == args
}

/// A step that deletes a file.
pub open spec fn removes_file(step: StepView) -> bool {
    step is RemoveFile || step is RemoveIfExists
}

/// Stopping on macOS with a home folder: when the job file
/// `~/Library/LaunchAgents/com.stick.agent.plist` is there, the job is
/// unloaded with `launchctl unload <job file>` (a failed unload fails the
/// stop), and only after that is the job file removed.
pub proof fn lemma_launchd_stop_unloads_first(has_systemctl: bool, home: Seq<char>)
    ensures ({
        let plist = join_spec(join_spec(join_spec(home, "Library"@), "LaunchAgents"@), "com.stick.agent.plist"@);
        &&& stop_spec(TargetOs::MacOs, has_systemctl, Some(home)) matches Ok(plan)
        &&& plan.len() >= 3
        &&& plan[0] == StepView::EndIfMissing(plist)
        &&& runs_required(plan[1], "launchctl"@, seq!["unload"@, plist])
        &&& forall|j: int| 0 <= j < plan.len() && removes_file(#[trigger] plan[j]) ==> j > 1
        &&& plan[plan.len() - 1] matches StepView::RemoveFile(f, _) && f == plist
    }),
{
}

/// Stopping on Linux with systemd: the first step stops the unit with
/// `systemctl --user stop stick.service` (a failed stop fails the plan);
/// nothing is removed before it.
pub proof fn lemma_systemd_stop_stops_first(home: Option<Seq<char>>)
    ensures ({
        &&& stop_spec(TargetOs::Linux, true, home) matches Ok(plan)
        &&& plan.len() >= 1
        &&& runs_required(plan[0], "systemctl"@, seq!["--user"@, "stop"@, "stick.service"@])
        &&& forall|j: int| 0 <= j < plan.len() && removes_file(#[trigger] plan[j]) ==> j > 0
    }),
{
    match home {
        Some(h) => {},
        None => {},
    }
}

/// The plan that shows the service's state, or why there is none.
pub open spec fn status_spec(os: TargetOs, has_systemctl: bool) -> Result<Seq<StepView>, DaemonError> {
    match detect_spec(os, has_systemctl) {
        Err(e) => Err(e),
        Ok(m) => Ok(status_plan(m)),
    }
}

/// The view of a planning result.
pub open spec fn result_view(r: Result<Vec<ServiceStep>, DaemonError>) -> Result<Seq<StepView>, DaemonError> {
    match r {
        Ok(p) => Ok(plan_view(p@)),
        Err(e) => Err(e),
    }
}

fn args2(a: &str, b: &str) -> (v: Vec<String>)
    ensures
        views(v@) == seq![a@, b@],
{
    let mut v: Vec<String> = Vec::new();
    v.push(a.to_owned());
    v.push(b.to_owned());
    assert(views(v@) =~= seq![a@, b@]);
    v
}

fn args3(a: &str, b: &str, c: &str) -> (v: Vec<String>)
    ensures
        views(v@) == seq![a@, b@, c@],
{
    let mut v: Vec<String> = Vec::new();
    v.push(a.to_owned());
    v.push(b.to_owned());
    v.push(c.to_owned());
    assert(views(v@) =~= seq![a@, b@, c@]);
    v
}

fn args4(a: &str, b: &str, c: &str, d: &str) -> (v: Vec<String>)
    ensures
        views(v@) == seq![a@, b@, c@, d@],
{
    let mut v: Vec<String> = Vec::new();
    v.push(a.to_owned());
    v.push(b.to_owned());
    v.push(c.to_owned());
    v.push(d.to_owned());
    assert(views(v@) =~= seq![a@, b@, c@, d@]);
    v
}

fn run(program: &str, args: Vec<String>, spawn_context: Option<&str>, on_exit: OnExit) -> (s: ServiceStep)
    ensures
        step_view(s) == StepView::Run(
            program@,
            views(args@),
            match spawn_context {
                Some(c) => Some(c@),
                None => None::<Seq<char>>,
            },
            exit_view(on_exit),
        ),
{
    let spawn = match spawn_context {
        Some(c) => Some(c.to_owned()),
        None => None,
    };
    ServiceStep::Run { program: program.to_owned(), args, spawn_context: spawn, on_exit }
}

fn context(label: &str, path: &str, quoted: bool) -> (c: ErrorContext)
    ensures
        context_view(c) == ctx(label@, path@, quoted),
{
    ErrorContext { label: label.to_owned(), path: path.to_owned(), quoted }
}

fn launchd_start(home: &str, binary: &str, log_dir: &str) -> (p: Vec<ServiceStep>)
    ensures
        plan_view(p@) == launchd_start_plan(home@, binary@, log_dir@),
{
    let agents = launch_agents_dir(home);
    let plist = join_path(agents.as_str(), "com.stick.agent.plist");
    let mut p: Vec<ServiceStep> = Vec::new();
    p.push(ServiceStep::CreateDir {
        path: agents.clone(),
        context: context("LaunchAgents 디렉토리 생성 실패", agents.as_str(), true),
    });
    p.push(ServiceStep::CreateDir {
        path: log_dir.to_owned(),
        context: context("로그 디렉토리 생성 실패", log_dir, false),
    });
    p.push(ServiceStep::WriteFile {
        path: plist.clone(),
        content: generate_launchd_plist(binary, log_dir),
        context: context("plist 파일 생성 실패", plist.as_str(), true),
    });
    let unload = args2("unload", plist.as_str());
    p.push(run("launchctl", unload, None, OnExit::Ignore));
    let load = args2("load", plist.as_str());
    p.push(run("launchctl", load, Some("launchctl load 실행 실패"), OnExit::Require("launchctl load 실패".to_owned())));
    assert(plan_view(p@) =~= launchd_start_plan(home@, binary@, log_dir@));
    p
}

fn systemd_start(home: &str, binary: &str) -> (p: Vec<ServiceStep>)
    ensures
        plan_view(p@) == systemd_start_plan(home@, binary@),
{
    let dir = systemd_user_dir(home);
    let unit = join_path(dir.as_str(), "stick.service");
    let mut p: Vec<ServiceStep> = Vec::new();
    p.push(ServiceStep::CreateDir {
        path: dir.clone(),
        context: context("systemd user 디렉토리 생성 실패", dir.as_str(), true),
    });
    p.push(ServiceStep::WriteFile {
        path: unit.clone(),
        content: generate_systemd_unit(binary),
        context: context("unit 파일 생성 실패", unit.as_str(), true),
    });
    let reload = args2("--user", "daemon-reload");
    p.push(run("systemctl", reload, Some("systemctl daemon-reload 실패"), OnExit::Require("daemon-reload 실패".to_owned())));
    let enable = args4("--user", "enable", "--now", "stick.service");
    p.push(run("systemctl", enable, Some("systemctl enable 실패"), OnExit::Require("서비스 활성화 실패".to_owned())));
    assert(plan_view(p@) =~= systemd_start_plan(home@, binary@));
    p
}

/// The steps that start the service (see `start_spec`): `home` is the home
/// folder, `binary` the path of the running program, `log_dir` the log folder.
pub fn start_service(
    os: TargetOs,
    has_systemctl: bool,
    home: Option<String>,
    binary: Option<String>,
    log_dir: &str,
) -> (r: Result<Vec<ServiceStep>, DaemonError>)
    ensures
        result_view(r) == start_spec(os, has_systemctl, crate::path::opt_view(home), crate::path::opt_view(binary), log_dir@),
{
    let m = match detect_service_manager(os, has_systemctl) {
        Ok(m) => m,
        Err(e) => return Err(e),
    };
    let h = match home {
        Some(h) => h,
        None => return Err(DaemonError::NoHomeDir),
    };
    let b = match binary {
        Some(b) => b,
        None => return Err(DaemonError::NoExecutable),
    };
    match m {
        ServiceManager::Launchd => Ok(launchd_start(h.as_str(), b.as_str(), log_dir)),
        ServiceManager::Systemd => Ok(systemd_start(h.as_str(), b.as_str())),
    }
}

/// The steps that stop the service (see `stop_spec`).
pub fn stop_service(os: TargetOs, has_systemctl: bool, home: Option<String>) -> (r: Result<Vec<ServiceStep>, DaemonError>)
    ensures
        result_view(r) == stop_spec(os, has_systemctl, crate::path::opt_view(home)),
{
    let m = match detect_service_manager(os, has_systemctl) {
        Ok(m) => m,
        Err(e) => return Err(e),
    };
    match m {
        ServiceManager::Launchd => {
            let h = match home {
                Some(h) => h,
                None => return Err(DaemonError::NoHomeDir),
            };
            let agents = launch_agents_dir(h.as_str());
            let plist = join_path(agents.as_str(), "com.stick.agent.plist");
            let mut p: Vec<ServiceStep> = Vec::new();
            p.push(ServiceStep::EndIfMissing { path: plist.clone() });
            let unload = args2("unload", plist.as_str());
            p.push(run("launchctl", unload, Some("launchctl unload 실행 실패"), OnExit::Require("launchctl unload 실패".to_owned())));
            p.push(ServiceStep::RemoveFile {
                path: plist.clone(),
                context: context("plist 파일 삭제 실패", plist.as_str(), true),
            });
            assert(plan_view(p@) =~= launchd_stop_plan(h@));
            Ok(p)
        },
        ServiceManager::Systemd => {
            let mut p: Vec<ServiceStep> = Vec::new();
            let stop = args3("--user", "stop", "stick.service");
            p.push(run("systemctl", stop, Some("systemctl stop 실패"), OnExit::Require("서비스 중지 실패".to_owned())));
            let disable = args3("--user", "disable", "stick.service");
            p.push(run("systemctl", disable, None, OnExit::Ignore));
            match home {
                Some(h) => {
                    let dir = systemd_user_dir(h.as_str());
                    let unit = join_path(dir.as_str(), "stick.service");
                    p.push(ServiceStep::RemoveIfExists { path: unit });
                    let reload = args2("--user", "daemon-reload");
                    p.push(run("systemctl", reload, None, OnExit::Ignore));
                    assert(plan_view(p@) =~= systemd_stop_plan(Some(h@)));
                },
                None => {
                    p.push(ServiceStep::Fail(DaemonError::NoHomeDir));
                    assert(plan_view(p@) =~= systemd_stop_plan(None));
                },
            }
            Ok(p)
        },
    }
}

/// The steps that show the service's state (see `status_spec`).
pub fn show_status(os: TargetOs, has_systemctl: bool) -> (r: Result<Vec<ServiceStep>, DaemonError>)
    ensures
        result_view(r) == status_spec(os, has_systemctl),
{
    let m = match detect_service_manager(os, has_systemctl) {
        Ok(m) => m,
        Err(e) => return Err(e),
    };
    let mut p: Vec<ServiceStep> = Vec::new();
    match m {
        ServiceManager::Launchd => {
            let args = args2("list", "com.stick.agent");
            p.push(run("launchctl", args, Some("launchctl list 실행 실패"), OnExit::ReportRunning));
        },
        ServiceManager::Systemd => {
            let args = args3("--user", "status", "stick.service");
            p.push(run("systemctl", args, Some("systemctl status 실패"), OnExit::PrintOutput));
        },
    }
    assert(plan_view(p@) =~= status_plan(m));
    Ok(p)
}

// ── Resource use of the running service ─────────────────────────────────

/// Where `p` first occurs in `s`, looking from position `i` on.
pub open spec fn find_from(s: Seq<char>, p: Seq<char>, i: int) -> Option<int>
    decreases s.len() - i,
{
    if i < 0 || i + p.len() > s.len() {
        None
    } else if s.subrange(i, i + p.len()) == p {
        Some(i)
    } else if i >= s.len() {
        None
    } else {
        find_from(s, p, i + 1)
    }
}

/// The digits at the start of a text.
pub open spec fn leading_digits(t: Seq<char>) -> Seq<char>
    decreases t.len(),
{
    if t.len() > 0 && '0' <= t[0] && t[0] <= '9' {
        seq![t[0]] + leading_digits(t.drop_first())
    } else {
        Seq::empty()
    }
}

/// What precedes the process id in the output of `launchctl list <label>`.
pub open spec fn pid_marker() -> Seq<char> {
    "\"PID\" = "@
}

/// The process id of a running job, read from `launchctl list <label>`:
/// the number after the first `"PID" = `; none when there is none.
pub open spec fn launchd_pid_spec(out: Seq<char>) -> Option<u64> {
    match find_from(out, pid_marker(), 0) {
        Some(i) => parse_u64_spec(leading_digits(out.subrange(i + pid_marker().len(), out.len() as int))),
        None => None,
    }
}

fn matches_at(s: &Vec<char>, p: &Vec<char>, i: usize) -> (b: bool)
    requires
        i + p@.len() <= s@.len(),
    ensures
        b == (s@.subrange(i as int, i + p@.len()) == p@),
{
    let n: usize = s.len();
    let mut k: usize = 0;
    while k < p.len()
        invariant
            n == s@.len(),
            i + p@.len() <= s@.len(),
            k <= p@.len(),
            forall|j: int| 0 <= j < k ==> s@[i + j] == p@[j],
        decreases p@.len() - k,
    {
        if s[i + k] != p[k] {
            assert(s@.subrange(i as int, i + p@.len())[k as int] != p@[k as int]);
            return false;
        }
        k = k + 1;
    }
    assert(s@.subrange(i as int, i + p@.len()) =~= p@);
    true
}

fn find_chars(s: &Vec<char>, p: &Vec<char>) -> (r: Option<usize>)
    ensures
        match r {
            Some(i) => find_from(s@, p@, 0) == Some(i as int) && i + p@.len() <= s@.len(),
            None => find_from(s@, p@, 0) is None,
        },
{
    if p.len() > s.len() {
        return None;
    }
    let last: usize = s.len() - p.len();
    let mut i: usize = 0;
    loop
        invariant
            last + p@.len() == s@.len(),
            i <= last,
            find_from(s@, p@, 0) == find_from(s@, p@, i as int),
        decreases last - i,
    {
        if matches_at(s, p, i) {
            return Some(i);
        }
        if i == last {
            assert(find_from(s@, p@, i + 1) is None);
            return None;
        }
        i = i + 1;
    }
}

/// The process id in what `launchctl list <label>` printed (see
/// `launchd_pid_spec`).
pub fn launchd_pid(output: &str) -> (r: Option<u64>)
    ensures
        r == launchd_pid_spec(output@),
{
    let v = crate::text::chars_of(output);
    let marker = crate::text::chars_of("\"PID\" = ");
    match find_chars(&v, &marker) {
        None => None,
        Some(i) => {
            let n: usize = v.len();
            assert(i + marker@.len() <= n);
            let start: usize = i + marker.len();
            let ghost rest = v@.subrange(start as int, v@.len() as int);
            let mut digits: Vec<char> = Vec::new();
            let mut j: usize = start;
            while j < v.len() && '0' <= v[j] && v[j] <= '9'
                invariant
                    start <= j <= v@.len(),
                    leading_digits(rest) == digits@ + leading_digits(v@.subrange(j as int, v@.len() as int)),
                decreases v@.len() - j,
            {
                proof {
                    let t = v@.subrange(j as int, v@.len() as int);
                    assert(t.drop_first() == v@.subrange(j + 1, v@.len() as int));
                    assert(digits@.push(v@[j as int]) + leading_digits(t.drop_first())
                        == digits@ + (seq![t[0]] + leading_digits(t.drop_first())));
                }
                digits.push(v[j]);
                j = j + 1;
            }
            proof {
                let t = v@.subrange(j as int, v@.len() as int);
                assert(leading_digits(t) == Seq::<char>::empty());
                assert(digits@ + Seq::<char>::empty() == digits@);
            }
            let text = crate::text::string_from_chars(&digits);
            crate::text::parse_u64(text.as_str())
        },
    }
}

/// The command that shows the resource use of a process: `ps -o
/// pid,%cpu,%mem,rss,etime -p <pid>` (its CPU and memory shares, its
/// resident memory and how long it has run).
pub fn usage_command(pid: u64) -> (cmd: CommandLine)
    ensures
        cmd.program@ == "ps"@,
        views(cmd.args@) == seq!["-o"@, "pid,%cpu,%mem,rss,etime"@, "-p"@, decimal(pid as nat)],
{
    let mut args: Vec<String> = Vec::new();
    args.push("-o".to_owned());
    args.push("pid,%cpu,%mem,rss,etime".to_owned());
    args.push("-p".to_owned());
    args.push(decimal_string(pid));
    assert(views(args@) =~= seq!["-o"@, "pid,%cpu,%mem,rss,etime"@, "-p"@, decimal(pid as nat)]);
    CommandLine { program: "ps".to_owned(), args }
}

} // verus!
