use stick::daemon::{launchd_pid, usage_command};
use stick::daemon::{
    detect_service_manager, generate_launchd_plist, generate_systemd_unit, show_status, start_service,
    stop_service, DaemonError, OnExit, ServiceManager, ServiceStep, TargetOs,
};
use stick::logger::{compressed_path, get_dir_size, should_compress, today_log_name};
use stick::notifier::{notification_script, send_notification};
use stick::watcher::{existing_watch_paths, is_relevant_event, rename_notice, watch_step, FsEventKind, WatchAction, WatchEvent};
use stick::scanner::RenameEntry;
use stick::config::StickConfig;

#[test]
fn service_manager_per_os() {
    assert_eq!(detect_service_manager(TargetOs::MacOs, false), Ok(ServiceManager::Launchd));
    assert_eq!(detect_service_manager(TargetOs::Linux, true), Ok(ServiceManager::Systemd));
    assert_eq!(detect_service_manager(TargetOs::Linux, false), Err(DaemonError::NoSystemd));
    assert_eq!(detect_service_manager(TargetOs::Windows, true), Err(DaemonError::WindowsNeedsNone));
    assert_eq!(detect_service_manager(TargetOs::Other, true), Err(DaemonError::UnsupportedOs));
    assert!(DaemonError::WindowsNeedsNone.message().contains("👉 stick scan\n\n"));
}

#[test]
fn launchd_plist_content() {
    let p = generate_launchd_plist("/usr/local/bin/stick", "/Users/k/logs/stick");
    assert!(p.starts_with("<?xml version=\"1.0\" encoding=\"UTF-8\"?>\n"));
    assert!(p.contains("        <string>/usr/local/bin/stick</string>\n        <string>watch</string>"));
    assert!(p.contains("<string>/Users/k/logs/stick/stick_stdout.log</string>"));
    assert!(p.contains("<string>/Users/k/logs/stick/stick_stderr.log</string>"));
    assert!(p.ends_with("</dict>\n</plist>"));
}

#[test]
fn systemd_unit_content() {
    let u = generate_systemd_unit("/opt/stick");
    assert!(u.contains("ExecStart=/opt/stick watch\n"));
    assert!(u.starts_with("[Unit]\n"));
    assert!(u.ends_with("WantedBy=default.target\n"));
}

#[test]
fn start_plan_on_macos() {
    let plan = start_service(TargetOs::MacOs, false, Some("/Users/k".to_string()), Some("/bin/stick".to_string()), "/tmp/l")
        .unwrap();
    assert_eq!(plan.len(), 5);
    match &plan[2] {
        ServiceStep::WriteFile { path, .. } => assert_eq!(path, "/Users/k/Library/LaunchAgents/com.stick.agent.plist"),
        other => panic!("unexpected {:?}", other),
    }
    match &plan[4] {
        ServiceStep::Run { program, args, on_exit: OnExit::Require(label), .. } => {
            assert_eq!(program, "launchctl");
            assert_eq!(args[0], "load");
            assert_eq!(label, "launchctl load 실패");
        },
        other => panic!("unexpected {:?}", other),
    }
    assert_eq!(
        start_service(TargetOs::MacOs, false, None, Some("/bin/stick".to_string()), "/tmp/l").unwrap_err(),
        DaemonError::NoHomeDir
    );
    assert_eq!(
        start_service(TargetOs::MacOs, false, Some("/h".to_string()), None, "/tmp/l").unwrap_err(),
        DaemonError::NoExecutable
    );
}

#[test]
fn stop_and_status_plans() {
    let plan = stop_service(TargetOs::Linux, true, Some("/home/k".to_string())).unwrap();
    assert_eq!(plan.len(), 4);
    match &plan[2] {
        ServiceStep::RemoveIfExists { path } => assert_eq!(path, "/home/k/.config/systemd/user/stick.service"),
        other => panic!("unexpected {:?}", other),
    }
    let plan = stop_service(TargetOs::Linux, true, None).unwrap();
    assert!(matches!(plan[2], ServiceStep::Fail(DaemonError::NoHomeDir)));
    let plan = stop_service(TargetOs::MacOs, true, Some("/Users/k".to_string())).unwrap();
    assert!(matches!(plan[0], ServiceStep::EndIfMissing { .. }));
    let plan = show_status(TargetOs::MacOs, false).unwrap();
    assert!(matches!(plan[0], ServiceStep::Run { on_exit: OnExit::ReportRunning, .. }));
    assert!(show_status(TargetOs::Windows, false).is_err());
}

#[test]
fn notification_script_escapes_quotes() {
    let s = notification_script("stick", "변환: \"가\"");
    assert_eq!(s, "display notification \"변환: \\\"가\\\"\" with title \"stick\" sound name \"Glass\"");
    let cmd = send_notification("t", "m");
    assert_eq!(cmd.program, "osascript");
    assert_eq!(cmd.args[0], "-e");
}

#[test]
fn old_logs_to_compress() {
    assert_eq!(today_log_name("2024-05-01"), "stick.log.2024-05-01");
    assert!(should_compress("stick.log.2024-04-30", "2024-05-01"));
    assert!(!should_compress("stick.log.2024-05-01", "2024-05-01"));
    assert!(!should_compress("stick.log.2024-04-30.gz", "2024-05-01"));
    assert!(!should_compress("stick.log", "2024-05-01"));
    assert!(!should_compress("other.log.2024", "2024-05-01"));
    assert!(should_compress("stick.log.2023-12-31", "2024-01-01"));
    assert!(!should_compress("stick.log.x", "2024-01-01"));
    assert!(!should_compress("stick.log.2024-01-02", "2024-01-01"));
    assert!(!should_compress("stick.log.2023-13-01", "2024-01-01"));
    assert!(!should_compress("stick.log.2023-12-00", "2024-01-01"));
    assert!(!should_compress("stick.log.2023-1-011", "2024-01-01"));
    assert_eq!(compressed_path("/l/stick.log.x"), "/l/stick.log.x.gz");
    assert_eq!(get_dir_size(&vec![10, 20, 5]), 35);
    assert_eq!(get_dir_size(&vec![]), 0);
}

#[test]
fn watcher_decisions() {
    assert!(is_relevant_event(FsEventKind::Create));
    assert!(is_relevant_event(FsEventKind::Rename));
    assert!(!is_relevant_event(FsEventKind::Other));
    let d = StickConfig::default_with_home(None);
    match watch_step(WatchEvent::Fs(FsEventKind::Create, vec!["/w/a".to_string()]), &d) {
        WatchAction::Normalize { paths, delay_seconds } => {
            assert_eq!(paths, vec!["/w/a"]);
            assert_eq!(delay_seconds, 2);
        }
        other => panic!("unexpected {:?}", other),
    }
    assert!(matches!(watch_step(WatchEvent::Fs(FsEventKind::Other, vec![]), &d), WatchAction::Ignore));
    assert!(matches!(watch_step(WatchEvent::Timeout, &d), WatchAction::FullScan));
    assert!(matches!(watch_step(WatchEvent::Disconnected, &d), WatchAction::Stop));
    assert!(matches!(watch_step(WatchEvent::Error, &d), WatchAction::LogError));
    let mut c = StickConfig::default_with_home(None);
    c.watch_paths = vec!["/a".to_string(), "/b".to_string(), "/c".to_string()];
    assert_eq!(existing_watch_paths(&c, &vec![true, false, true]), vec!["/a", "/c"]);
}

#[test]
fn notices_only_when_enabled() {
    let mut c = StickConfig::default_with_home(None);
    let e = RenameEntry {
        original_path: "/w/\u{1100}\u{1161}".to_string(),
        new_path: "/w/\u{AC00}".to_string(),
        original_name: "\u{1100}\u{1161}".to_string(),
        new_name: "\u{AC00}".to_string(),
    };
    assert!(rename_notice(&c, &e).is_none());
    c.enable_notifications = true;
    let cmd = rename_notice(&c, &e).unwrap();
    assert_eq!(cmd.program, "osascript");
    assert_eq!(
        cmd.args,
        vec![
            "-e".to_string(),
            "display notification \"\u{1100}\u{1161} → \u{AC00}\" with title \"stick\" sound name \"Glass\"".to_string(),
        ]
    );
}

#[test]
fn running_service_usage() {
    let out = "{\n\t\"LimitLoadToSessionType\" = \"Aqua\";\n\t\"Label\" = \"com.stick.agent\";\n\t\"PID\" = 4321;\n};\n";
    assert_eq!(launchd_pid(out), Some(4321));
    assert_eq!(launchd_pid("{\n\t\"LastExitStatus\" = 0;\n};"), None);
    assert_eq!(launchd_pid("\"PID\" = ;"), None);
    let cmd = usage_command(4321);
    assert_eq!(cmd.program, "ps");
    assert_eq!(cmd.args, vec!["-o", "pid,%cpu,%mem,rss,etime", "-p", "4321"]);
}
