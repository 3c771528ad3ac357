use stick::config::{PathState, StickConfig};

#[test]
fn test_default_config() {
    let config = StickConfig::default();
    assert!(config.recursive);
    assert!(config.exclude_hidden);
    assert!(config.exclude_symlinks);
    assert!(config.watch_paths.is_empty());
    assert!(!config.exclude_extensions.is_empty());
}

#[test]
fn default_values_in_full() {
    let c = StickConfig::default_with_home(Some("/Users/kim".to_string()));
    assert_eq!(c.log_path, "/Users/kim/logs/stick");
    assert_eq!(c.exclude_extensions, vec![".tmp", ".swp", ".swo", ".bak", ".crdownload", ".part", ".download"]);
    assert_eq!(c.exclude_directories.len(), 8);
    assert_eq!(c.scan_interval_seconds, 5);
    assert_eq!(c.debounce_delay_seconds, 2);
    assert_eq!(c.log_level, "info");
    assert!(c.confirm_before_scan && c.auto_start && !c.enable_notifications);
    let none = StickConfig::default_with_home(None);
    assert_eq!(none.log_path, "/tmp/stick/logs");
}

#[test]
fn validate_reports_each_problem() {
    let mut c = StickConfig::default_with_home(None);
    let w = c.validate(&vec![], Some("/tmp/stick".to_string()), true, true);
    assert_eq!(w, vec!["감시할 폴더가 설정되지 않았습니다. 'stick config'로 추가해주세요."]);
    c.watch_paths = vec!["/a".to_string(), "/b".to_string(), "/c".to_string()];
    let w = c.validate(
        &vec![PathState::Missing, PathState::Directory, PathState::NotDirectory],
        Some("/tmp/stick".to_string()),
        false,
        false,
    );
    assert_eq!(
        w,
        vec![
            "경로가 존재하지 않습니다: /a",
            "디렉토리가 아닙니다: /c",
            "로그 경로의 상위 디렉토리가 존재하지 않습니다: /tmp/stick",
        ]
    );
    let w = c.validate(&vec![PathState::Directory; 3], None, false, false);
    assert!(w.is_empty());
    let w = c.validate(&vec![PathState::Directory; 3], Some("/var/log".to_string()), true, true);
    assert!(w.is_empty());
    let w = c.validate(&vec![PathState::Directory; 3], Some("/var/log".to_string()), true, false);
    assert_eq!(w, vec!["로그 경로의 상위 디렉토리에 쓰기 권한이 없습니다: /var/log"]);
}

#[test]
fn log_dir_expands_tilde() {
    let mut c = StickConfig::default_with_home(None);
    c.log_path = "~/logs/stick".to_string();
    assert_eq!(c.log_dir_with_home(Some("/home/u".to_string())), "/home/u/logs/stick");
    assert_eq!(c.log_dir_with_home(None), "~/logs/stick");
    c.log_path = "/var/log/stick".to_string();
    assert_eq!(c.log_dir_with_home(Some("/home/u".to_string())), "/var/log/stick");
    c.log_path = "~".to_string();
    assert_eq!(c.log_dir_with_home(Some("/home/u".to_string())), "/home/u");
    c.log_path = "~/".to_string();
    assert_eq!(c.log_dir_with_home(Some("/home/u".to_string())), "/home/u");
    c.log_path = "~//x/y".to_string();
    assert_eq!(c.log_dir_with_home(Some("/home/u/".to_string())), "/home/u/x/y");
}

#[test]
fn config_file_locations() {
    assert_eq!(StickConfig::config_file_path_in("/home/u"), "/home/u/.config/stick/config.json");
    assert_eq!(StickConfig::pid_file_path_in("/home/u/"), "/home/u/.config/stick/stick.pid");
}
