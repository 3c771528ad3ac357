use stick::cli::{action_word, is_yes_answer, scan_needs_confirmation, scan_report, version_line, Cli, Commands};

#[test]
fn confirmation_only_for_real_runs() {
    assert!(scan_needs_confirmation(false, false, true));
    assert!(!scan_needs_confirmation(true, false, true));
    assert!(!scan_needs_confirmation(false, true, true));
    assert!(!scan_needs_confirmation(false, false, false));
}

#[test]
fn yes_answers() {
    assert!(is_yes_answer("y\n"));
    assert!(is_yes_answer("  Y  "));
    assert!(!is_yes_answer("yes"));
    assert!(!is_yes_answer("\n"));
    assert!(!is_yes_answer("n"));
}

#[test]
fn report_lines() {
    assert_eq!(action_word(true), "변환 예정");
    assert_eq!(action_word(false), "변환 완료");
    assert_eq!(scan_report(false, 12, 0), "📊 변환 완료 12건, 에러 0건");
    assert_eq!(scan_report(true, 3, 1), "📊 변환 예정 3건, 에러 1건");
    assert_eq!(version_line("0.2.1"), "stick v0.2.1");
}

#[test]
fn commands_hold_their_flags() {
    let cli = Cli { command: Commands::Scan { dry_run: true, yes: false } };
    assert_eq!(cli.command, Commands::Scan { dry_run: true, yes: false });
    assert_ne!(cli.command, Commands::Watch);
}
