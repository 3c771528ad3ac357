use stick::config::StickConfig;
use stick::tui::app::{App, DirPickerFocus, InputTarget, Key, KeyOutcome, Screen};

fn app() -> App {
    App::new(StickConfig::default_with_home(Some("/home/u".to_string())), Some("/home/u".to_string()))
}

fn press(a: &mut App, k: Key) -> KeyOutcome {
    a.handle_key(k)
}

fn type_text(a: &mut App, text: &str) {
    for c in text.chars() {
        press(a, Key::Char(c));
    }
}

#[test]
fn new_app_starts_on_main_menu() {
    let a = app();
    assert_eq!(a.current_screen, Screen::Main);
    assert_eq!(a.selected_index, 0);
    assert!(a.should_save);
    assert_eq!(a.status_message, "[↑↓] 이동  [Enter] 선택  [q] 저장 후 종료");
    assert_eq!(a.menu_len(), 4);
}

#[test]
fn cursor_stays_on_the_menu() {
    let mut a = app();
    press(&mut a, Key::Up);
    assert_eq!(a.selected_index, 0);
    for _ in 0..10 {
        press(&mut a, Key::Down);
    }
    assert_eq!(a.selected_index, 3);
    press(&mut a, Key::Char('k'));
    assert_eq!(a.selected_index, 2);
}

#[test]
fn toggling_twice_restores_the_setting() {
    let mut a = app();
    press(&mut a, Key::Down);
    press(&mut a, Key::Enter);
    assert_eq!(a.current_screen, Screen::ExcludeSettings);
    assert!(a.config.exclude_hidden);
    press(&mut a, Key::Char(' '));
    assert!(!a.config.exclude_hidden);
    press(&mut a, Key::Char(' '));
    assert!(a.config.exclude_hidden);
    press(&mut a, Key::Esc);
    assert_eq!(a.current_screen, Screen::Main);
}

#[test]
fn add_extension_by_typing() {
    let mut a = app();
    press(&mut a, Key::Down);
    press(&mut a, Key::Enter);
    for _ in 0..3 {
        press(&mut a, Key::Down);
    }
    press(&mut a, Key::Enter);
    assert_eq!(a.current_screen, Screen::ExcludeExtensions);
    press(&mut a, Key::Char('a'));
    assert!(a.input_mode);
    assert_eq!(a.input_buffer, ".");
    press(&mut a, Key::Backspace);
    type_text(&mut a, "  log ");
    press(&mut a, Key::Enter);
    assert!(!a.input_mode);
    assert_eq!(a.config.exclude_extensions.last().unwrap(), ".log");
    assert_eq!(a.status_message, "추가됨: .log");
}

#[test]
fn empty_input_cancels() {
    let mut a = app();
    a.current_screen = Screen::ExcludeDirs;
    press(&mut a, Key::Char('a'));
    type_text(&mut a, "   ");
    let before = a.config.exclude_directories.len();
    press(&mut a, Key::Enter);
    assert!(!a.input_mode);
    assert_eq!(a.config.exclude_directories.len(), before);
    assert_eq!(a.status_message, "[↑↓] 이동  [Enter] 선택  [q] 저장 후 종료");
}

#[test]
fn scan_interval_input() {
    let mut a = app();
    a.current_screen = Screen::GeneralSettings;
    a.selected_index = 1;
    press(&mut a, Key::Enter);
    assert_eq!(a.input_buffer, "5");
    press(&mut a, Key::Backspace);
    type_text(&mut a, "30");
    press(&mut a, Key::Enter);
    assert_eq!(a.config.scan_interval_seconds, 30);
    assert_eq!(a.status_message, "스캔 간격 변경: 30초");
    press(&mut a, Key::Enter);
    press(&mut a, Key::Backspace);
    press(&mut a, Key::Backspace);
    type_text(&mut a, "0");
    press(&mut a, Key::Enter);
    assert_eq!(a.config.scan_interval_seconds, 30);
    assert_eq!(a.status_message, "⚠️  1초 이상의 값을 입력해주세요.");
    press(&mut a, Key::Enter);
    type_text(&mut a, "x");
    press(&mut a, Key::Enter);
    assert_eq!(a.status_message, "⚠️  숫자를 입력해주세요.");
    press(&mut a, Key::Enter);
    a.input_buffer = "+7".to_string();
    press(&mut a, Key::Enter);
    assert_eq!(a.config.scan_interval_seconds, 7);
    press(&mut a, Key::Enter);
    a.input_buffer = "18446744073709551616".to_string();
    press(&mut a, Key::Enter);
    assert_eq!(a.config.scan_interval_seconds, 7);
}

#[test]
fn log_path_and_level() {
    let mut a = app();
    a.current_screen = Screen::LogSettings;
    press(&mut a, Key::Down);
    press(&mut a, Key::Enter);
    assert_eq!(a.config.log_level, "debug");
    assert_eq!(a.status_message, "로그 레벨 변경: debug");
    press(&mut a, Key::Enter);
    assert_eq!(a.config.log_level, "info");
    press(&mut a, Key::Up);
    press(&mut a, Key::Enter);
    assert_eq!(a.input_target, Some(InputTarget::EditLogPath));
    a.input_buffer = "~/mylogs".to_string();
    press(&mut a, Key::Enter);
    assert_eq!(a.config.log_path, "/home/u/mylogs");
    assert_eq!(a.status_message, "로그 경로 변경: /home/u/mylogs");
}

#[test]
fn delete_with_confirmation() {
    let mut a = app();
    a.config.watch_paths = vec!["/a".to_string(), "/b".to_string()];
    a.current_screen = Screen::WatchPaths;
    a.selected_index = 1;
    press(&mut a, Key::Char('d'));
    assert!(a.confirm_delete);
    assert_eq!(a.status_message, "정말 삭제하시겠습니까? [y/n]");
    press(&mut a, Key::Char('j'));
    assert!(a.confirm_delete);
    press(&mut a, Key::Char('y'));
    assert!(!a.confirm_delete);
    assert_eq!(a.config.watch_paths, vec!["/a"]);
    assert_eq!(a.selected_index, 0);
    assert_eq!(a.status_message, "삭제됨: /b");
    press(&mut a, Key::Char('d'));
    press(&mut a, Key::Char('n'));
    assert!(!a.confirm_delete);
    assert_eq!(a.config.watch_paths.len(), 1);
}

#[test]
fn quit_and_save_keys() {
    let mut a = app();
    assert!(matches!(press(&mut a, Key::Char('s')), KeyOutcome::Save));
    a.mark_saved();
    assert_eq!(a.status_message, "✅ 설정이 저장되었습니다.");
    a.current_screen = Screen::LogSettings;
    assert!(matches!(press(&mut a, Key::Char('q')), KeyOutcome::Continue));
    assert_eq!(a.current_screen, Screen::Main);
    assert!(matches!(press(&mut a, Key::Char('q')), KeyOutcome::Quit));
}

fn open_picker(a: &mut App) {
    a.current_screen = Screen::WatchPaths;
    match press(a, Key::Char('a')) {
        KeyOutcome::ListDir(d) => assert_eq!(d, "/home/u"),
        other => panic!("unexpected {:?}", other),
    }
    assert_eq!(a.current_screen, Screen::DirPicker);
    a.refresh_dir_picker(
        Some("/home".to_string()),
        vec!["/home/u/Zeta".to_string(), "/home/u/alpha".to_string(), "/home/u/Beta".to_string(), "/home/u/photos".to_string()],
    );
}

#[test]
fn picker_lists_parent_then_sorted_names() {
    let mut a = app();
    open_picker(&mut a);
    let dp = a.dir_picker.as_ref().unwrap();
    assert_eq!(dp.items, vec!["/home", "/home/u/alpha", "/home/u/Beta", "/home/u/photos", "/home/u/Zeta"]);
    assert_eq!(dp.selected_index, 0);
}

#[test]
fn picker_confirm_adds_without_duplicates() {
    let mut a = app();
    a.config.watch_paths = vec!["/home/u/Beta".to_string()];
    open_picker(&mut a);
    press(&mut a, Key::Char(' '));
    assert!(a.dir_picker.as_ref().unwrap().selected_paths.is_empty());
    press(&mut a, Key::Down);
    press(&mut a, Key::Char(' '));
    press(&mut a, Key::Down);
    press(&mut a, Key::Char(' '));
    press(&mut a, Key::Down);
    press(&mut a, Key::Char(' '));
    press(&mut a, Key::Char(' '));
    assert_eq!(a.dir_picker.as_ref().unwrap().selected_paths, vec!["/home/u/alpha", "/home/u/Beta"]);
    press(&mut a, Key::Tab);
    assert_eq!(a.dir_picker.as_ref().unwrap().focus, DirPickerFocus::Confirm);
    assert!(matches!(press(&mut a, Key::Enter), KeyOutcome::Continue));
    assert_eq!(a.current_screen, Screen::WatchPaths);
    assert!(a.dir_picker.is_none());
    assert_eq!(a.config.watch_paths, vec!["/home/u/Beta", "/home/u/alpha"]);
    assert_eq!(a.status_message, "1개의 감시 폴더가 추가되었습니다.");
}

#[test]
fn picker_cancel_and_enter_folder() {
    let mut a = app();
    open_picker(&mut a);
    press(&mut a, Key::Down);
    match press(&mut a, Key::Enter) {
        KeyOutcome::ListDir(d) => assert_eq!(d, "/home/u/alpha"),
        other => panic!("unexpected {:?}", other),
    }
    assert_eq!(a.dir_picker.as_ref().unwrap().current_dir, "/home/u/alpha");
    press(&mut a, Key::Tab);
    press(&mut a, Key::Tab);
    press(&mut a, Key::Enter);
    assert!(a.dir_picker.is_none());
    assert_eq!(a.status_message, "폴더 추가가 취소되었습니다.");
}

#[test]
fn picker_search_cycles_through_matches() {
    let mut a = app();
    open_picker(&mut a);
    a.refresh_dir_picker(
        None,
        vec!["/x/photo".to_string(), "/x/Photos".to_string(), "/x/my_photo".to_string(), "/x/other".to_string()],
    );
    a.start_dir_picker_search();
    assert_eq!(a.status_message, "[↑/↓] 매칭 순환  [Enter] 검색 완료  [Esc] 취소");
    a.input_buffer = "PHOTO".to_string();
    assert_eq!(
        a.dir_picker.as_ref().unwrap().items,
        vec!["/x/my_photo", "/x/other", "/x/photo", "/x/Photos"]
    );
    assert_eq!(a.get_matching_indices(), vec![2, 3, 0]);
    a.search_dir_picker(false);
    assert_eq!(a.dir_picker.as_ref().unwrap().selected_index, 2);
    a.search_dir_picker_next();
    assert_eq!(a.dir_picker.as_ref().unwrap().selected_index, 3);
    a.search_dir_picker_next();
    assert_eq!(a.dir_picker.as_ref().unwrap().selected_index, 0);
    a.search_dir_picker_next();
    assert_eq!(a.dir_picker.as_ref().unwrap().selected_index, 2);
    a.search_dir_picker_prev();
    assert_eq!(a.dir_picker.as_ref().unwrap().selected_index, 0);
    a.search_dir_picker_next();
    assert_eq!(a.dir_picker.as_ref().unwrap().selected_index, 2);
    a.dir_picker.as_mut().unwrap().selected_index = 1;
    a.search_dir_picker_next();
    assert_eq!(a.dir_picker.as_ref().unwrap().selected_index, 2);
    a.dir_picker.as_mut().unwrap().selected_index = 1;
    a.search_dir_picker_prev();
    assert_eq!(a.dir_picker.as_ref().unwrap().selected_index, 0);
    press(&mut a, Key::Esc);
    assert_eq!(a.status_message, "[↑↓] 이동  [Enter] 폴더 진입  [Space] 선택/해제  [Tab] 포커스");
    assert!(a.get_matching_indices().is_empty());
}

#[test]
fn keys_never_turn_saving_off() {
    let mut a = app();
    let keys = [
        Key::Down, Key::Enter, Key::Char(' '), Key::Esc, Key::Char('a'), Key::Char('x'),
        Key::Backspace, Key::Esc, Key::Down, Key::Down, Key::Enter, Key::Enter, Key::Esc,
        Key::Tab, Key::Other, Key::Char('d'), Key::Char('n'), Key::Char('q'),
    ];
    for k in keys.iter() {
        press(&mut a, *k);
        assert!(a.should_save);
    }
}

#[test]
fn slash_searches_the_picker_as_you_type() {
    let mut a = app();
    open_picker(&mut a);
    press(&mut a, Key::Char('/'));
    assert!(a.input_mode);
    assert_eq!(a.input_target, Some(InputTarget::DirPickerSearch));
    assert_eq!(a.status_message, "[↑/↓] 매칭 순환  [Enter] 검색 완료  [Esc] 취소");
    let hl = |a: &App| a.dir_picker.as_ref().unwrap().selected_index;
    press(&mut a, Key::Char('a'));
    assert_eq!(a.get_matching_indices(), vec![1, 2, 4]);
    assert_eq!(hl(&a), 1);
    press(&mut a, Key::Down);
    assert_eq!(hl(&a), 2);
    press(&mut a, Key::Down);
    assert_eq!(hl(&a), 4);
    press(&mut a, Key::Down);
    assert_eq!(hl(&a), 1);
    press(&mut a, Key::Up);
    assert_eq!(hl(&a), 4);
    press(&mut a, Key::Backspace);
    assert_eq!(a.input_buffer, "");
    assert_eq!(hl(&a), 4);
    press(&mut a, Key::Char('B'));
    assert_eq!(hl(&a), 2);
    press(&mut a, Key::Enter);
    assert!(!a.input_mode);
    assert_eq!(hl(&a), 2);
    assert_eq!(a.current_screen, Screen::DirPicker);
    assert_eq!(a.status_message, "[↑↓] 이동  [Enter] 폴더 진입  [Space] 선택/해제  [Tab] 포커스");
}

#[test]
fn slash_outside_the_picker_does_nothing() {
    let mut a = app();
    press(&mut a, Key::Char('/'));
    assert!(!a.input_mode);
    assert_eq!(a.current_screen, Screen::Main);
}

#[test]
fn auto_start_switch_on_general_settings() {
    let mut a = app();
    a.current_screen = Screen::GeneralSettings;
    assert_eq!(a.menu_len(), 4);
    for _ in 0..3 {
        press(&mut a, Key::Down);
    }
    assert_eq!(a.selected_index, 3);
    assert!(a.config.auto_start);
    assert!(matches!(press(&mut a, Key::Enter), KeyOutcome::AutoStart(false)));
    assert!(!a.config.auto_start);
    assert!(matches!(press(&mut a, Key::Char(' ')), KeyOutcome::AutoStart(true)));
    assert!(a.config.auto_start);
    press(&mut a, Key::Up);
    assert!(matches!(press(&mut a, Key::Enter), KeyOutcome::Continue));
    assert!(!a.config.confirm_before_scan);
}
