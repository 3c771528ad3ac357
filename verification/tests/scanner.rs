use stick::config::StickConfig;
use stick::scanner::{
    conflict_name, conflict_step, decide_rename, walk_prunes, ConflictStep, is_nfd_string, normalize_single_path, plan_rename, plan_scan, should_exclude,
    to_nfc, check_scan_root, RenameEntry, ScanError, ScanResult, SinglePathAction, WalkEntry,
};
use stick::config::PathState;

fn config() -> StickConfig {
    StickConfig::default_with_home(Some("/home/u".to_string()))
}

#[test]
fn test_is_nfd_string() {
    let nfc = "\u{AC00}";
    assert!(!is_nfd_string(nfc));
    let nfd = "\u{1100}\u{1161}";
    assert!(is_nfd_string(nfd));
    assert!(!is_nfd_string("hello.txt"));
}

#[test]
fn test_to_nfc() {
    let nfd = "\u{1100}\u{1161}";
    let nfc = to_nfc(nfd);
    assert_eq!(nfc, "\u{AC00}");
}

#[test]
fn test_ascii_unchanged() {
    let ascii = "document.pdf";
    assert_eq!(to_nfc(ascii), ascii);
    assert!(!is_nfd_string(ascii));
}

#[test]
fn nfc_output_is_never_nfd() {
    let nfd = "\u{1112}\u{1161}\u{11AB}\u{1100}\u{1173}\u{11AF}.txt";
    let once = to_nfc(nfd);
    assert_eq!(once, "\u{D55C}\u{AE00}.txt");
    assert!(!is_nfd_string(&once));
    assert_eq!(to_nfc(&once), once);
}

#[test]
fn exclude_hidden_and_temp() {
    let c = config();
    assert!(should_exclude("/w/.DS_Store", false, false, &c));
    assert!(should_exclude("/w/.secret", false, false, &c));
    assert!(should_exclude("/w/notes.txt~", false, false, &c));
    assert!(!should_exclude("/w/notes.txt", false, false, &c));
    let mut open = config();
    open.exclude_hidden = false;
    open.exclude_temp_files = false;
    assert!(!should_exclude("/w/.secret", false, false, &open));
    assert!(!should_exclude("/w/notes.txt~", false, false, &open));
}

#[test]
fn exclude_symlinks_only_when_asked() {
    let c = config();
    assert!(should_exclude("/w/link", true, false, &c));
    let mut open = config();
    open.exclude_symlinks = false;
    assert!(!should_exclude("/w/link", true, false, &open));
}

#[test]
fn exclude_extension_ignores_ascii_case() {
    let c = config();
    assert!(should_exclude("/w/report.TMP", false, false, &c));
    assert!(should_exclude("/w/movie.crdownload", false, false, &c));
    assert!(!should_exclude("/w/report.tmpx", false, false, &c));
    assert!(!should_exclude("/w/tmp", false, false, &c));
}

#[test]
fn exclude_inside_listed_folder() {
    let c = config();
    assert!(should_exclude("/w/node_modules/pkg/index.js", false, false, &c));
    assert!(should_exclude("/w/project/target", true, true, &c));
    assert!(should_exclude("/w/project/target", false, false, &c));
    assert!(!should_exclude("/w/project/targets/a", false, false, &c));
}

#[test]
fn exclude_path_without_name() {
    let c = config();
    assert!(should_exclude("/", false, true, &c));
    assert!(should_exclude("..", false, true, &c));
    assert!(should_exclude("", false, false, &c));
}

#[test]
fn rename_plan_for_names() {
    match plan_rename("/w/\u{1100}\u{1161}.txt") {
        Ok(Some(n)) => assert_eq!(n, "\u{AC00}.txt"),
        _ => panic!("expected a rename"),
    }
    assert!(matches!(plan_rename("/w/\u{AC00}.txt"), Ok(None)));
    assert!(matches!(plan_rename("/"), Err(ScanError::NoFileName)));
    assert_eq!(ScanError::NoFileName.message(), "파일명을 읽을 수 없습니다");
}

#[test]
fn conflict_names() {
    let nfd = "\u{1100}\u{1161}.txt";
    assert_eq!(conflict_name(nfd, 1), "\u{AC00}_conflict.txt");
    assert_eq!(conflict_name(nfd, 2), "\u{AC00}_conflict_2.txt");
    assert_eq!(conflict_name(nfd, 12), "\u{AC00}_conflict_12.txt");
    assert_eq!(conflict_name("\u{1100}\u{1161}", 1), "\u{AC00}_conflict");
    assert_eq!(conflict_name(".\u{1100}\u{1161}", 3), ".\u{AC00}_conflict_3");
    assert_eq!(conflict_name("a.tar.gz", 1), "a.tar_conflict.gz");
    assert_eq!(conflict_name("a.", 1), "a_conflict");
}

fn entry(path: &str, depth: usize) -> WalkEntry {
    WalkEntry { path: path.to_string(), depth, is_dir: depth < 2, is_symlink: false }
}

#[test]
fn scan_plan_is_leaf_first() {
    let c = config();
    let entries = vec![
        entry("/w", 0),
        entry("/w/a", 1),
        entry("/w/a/x", 2),
        entry("/w/b", 1),
        entry("/w/a/.hidden", 2),
        entry("/w/b/y", 2),
    ];
    let plan = plan_scan("/w", &entries, &c);
    let order: Vec<&str> = plan.to_convert.iter().map(|e| e.path.as_str()).collect();
    assert_eq!(order, vec!["/w/a/x", "/w/b/y", "/w/a", "/w/b"]);
    assert_eq!(plan.total_scanned, 5);
    assert_eq!(plan.skipped_count, 1);
}

#[test]
fn summary_line() {
    let mut r = ScanResult::new();
    r.total_scanned = 12;
    r.skipped_count = 3;
    r.record_renamed(RenameEntry {
        original_path: "/w/a".to_string(),
        new_path: "/w/b".to_string(),
        original_name: "a".to_string(),
        new_name: "b".to_string(),
    });
    r.record_error("boom".to_string());
    assert_eq!(r.summary(), "스캔 완료: 전체 12건 검사, 변환 1건, 스킵 3건, 에러 1건");
}

#[test]
fn single_path_decisions() {
    let c = config();
    let nfd = "\u{1100}\u{1161}".to_string();
    match normalize_single_path("/w/\u{1100}\u{1161}", false, false, Some(nfd.clone()), &c) {
        SinglePathAction::NormalizeReal(n) => assert_eq!(n, nfd),
        other => panic!("unexpected {:?}", other),
    }
    assert!(matches!(
        normalize_single_path("/w/\u{1100}\u{1161}", false, false, Some("\u{AC00}".to_string()), &c),
        SinglePathAction::Ignore
    ));
    assert!(matches!(
        normalize_single_path("/w/\u{1100}\u{1161}", false, false, None, &c),
        SinglePathAction::NormalizeGiven
    ));
    assert!(matches!(
        normalize_single_path("/w/.git/\u{1100}\u{1161}", false, false, Some(nfd), &c),
        SinglePathAction::Ignore
    ));
}

#[test]
fn scan_root_errors() {
    assert!(check_scan_root("/w", PathState::Directory).is_ok());
    match check_scan_root("/nope", PathState::Missing) {
        Err(e) => assert_eq!(e.message(), "경로가 존재하지 않습니다: /nope"),
        Ok(()) => panic!(),
    }
    match check_scan_root("/f", PathState::NotDirectory) {
        Err(e) => assert_eq!(e.message(), "디렉토리가 아닙니다: /f"),
        Ok(()) => panic!(),
    }
}

#[test]
fn renamed_names_are_not_renamed_again() {
    let n = match plan_rename("/w/\u{1112}\u{1161}\u{11AB}\u{1100}\u{1173}\u{11AF}.md") {
        Ok(Some(n)) => n,
        _ => panic!("expected a rename"),
    };
    assert_eq!(n, "\u{D55C}\u{AE00}.md");
    assert!(!is_nfd_string(&n));
    let again = format!("/w/{}", n);
    assert!(matches!(plan_rename(&again), Ok(None)));
}

#[test]
fn walk_stays_out_of_excluded_folders() {
    let c = config();
    let hidden = WalkEntry { path: "/w/.git".to_string(), depth: 1, is_dir: true, is_symlink: false };
    assert!(walk_prunes(&hidden, true, &c));
    assert!(!walk_prunes(&hidden, false, &c));
    let plain = WalkEntry { path: "/w/docs".to_string(), depth: 1, is_dir: true, is_symlink: false };
    assert!(!walk_prunes(&plain, true, &c));
    let entries = vec![
        WalkEntry { path: "/w".to_string(), depth: 0, is_dir: true, is_symlink: false },
        hidden.duplicate(),
        WalkEntry { path: "/w/a~".to_string(), depth: 1, is_dir: false, is_symlink: false },
        plain.duplicate(),
    ];
    let plan = plan_scan("/w", &entries, &c);
    assert_eq!(plan.skipped_count, 2);
    assert_eq!(plan.total_scanned, 3);
    assert_eq!(plan.to_convert.len(), 1);
}

#[test]
fn conflict_search_steps() {
    let nfd = "\u{1100}\u{1161}.txt";
    assert!(matches!(conflict_step(nfd, 1, true), ConflictStep::Try(2)));
    match conflict_step(nfd, 2, false) {
        ConflictStep::Use(n) => assert_eq!(n, "\u{AC00}_conflict_2.txt"),
        other => panic!("unexpected {:?}", other),
    }
}

#[test]
fn dry_run_reports_what_a_real_run_does() {
    let dry = decide_rename("/w/a", "a".to_string(), "b".to_string(), "/w/b".to_string(), true);
    let real_run = decide_rename("/w/a", "a".to_string(), "b".to_string(), "/w/b".to_string(), false);
    assert!(!dry.perform);
    assert!(real_run.perform);
    assert_eq!(dry.entry.original_path, real_run.entry.original_path);
    assert_eq!(dry.entry.new_path, "/w/b");
    assert_eq!(dry.entry.original_name, "a");
    assert_eq!(dry.entry.new_name, real_run.entry.new_name);
}
