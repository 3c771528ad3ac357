use stick::config::StickConfig;
use stick::tui::app::{App, DirPickerFocus, InputTarget, Key, KeyOutcome, Screen};
use stick::tui::view::{
    app_area, confirm_button, confirm_text, exclude_menu_items, general_menu_items, input_text,
    list_title, log_menu_items, main_menu_items, picker_lines, picker_location, picker_style,
    screen_lines, screen_title, shows_hint, Area, LineStyle,
};

fn app() -> App {
    App::new(StickConfig::default_with_home(Some("/home/u".to_string())), Some("/home/u".to_string()))
}

#[test]
fn window_is_centred_and_bounded() {
    let a = app_area(Area { x: 0, y: 0, width: 100, height: 40 });
    assert_eq!(a, Area { x: 15, y: 8, width: 70, height: 24 });
    let b = app_area(Area { x: 2, y: 3, width: 50, height: 10 });
    assert_eq!(b, Area { x: 2, y: 3, width: 50, height: 10 });
    let c = app_area(Area { x: 0, y: 0, width: 71, height: 25 });
    assert_eq!(c, Area { x: 0, y: 0, width: 70, height: 24 });
}

#[test]
fn titles_of_screens() {
    assert_eq!(screen_title(Screen::Main), " 🔧 stick 설정 ");
    assert_eq!(screen_title(Screen::DirPicker), " 🔍 폴더 선택기 ");
    assert_eq!(list_title(Screen::ExcludeDirs), " 제외 폴더 [a]추가 [d]삭제 [Esc]뒤로 ");
    assert_eq!(list_title(Screen::DirPicker), "");
}

#[test]
fn main_menu_lines() {
    let mut a = app();
    a.config.watch_paths = vec!["/a".to_string(), "/b".to_string()];
    assert_eq!(main_menu_items(&a.config)[0], "📂 감시 폴더 관리 (2개)");
    let lines = screen_lines(&a, &vec![true, false]);
    assert_eq!(
        lines,
        vec![
            "▶ 📂 감시 폴더 관리 (2개)",
            "  🚫 제외 설정",
            "  📋 로그 설정",
            "  ⚙️  일반 설정",
            "  💾 저장 및 종료",
            "  ❌ 취소",
        ]
    );
}

#[test]
fn settings_lines_show_switches_and_counts() {
    let mut c = StickConfig::default_with_home(Some("/home/u".to_string()));
    c.exclude_symlinks = false;
    let ex = exclude_menu_items(&c);
    assert_eq!(ex[0], "✅ 숨김 파일 제외 (.으로 시작하는 파일)");
    assert_eq!(ex[1], "⬜ 심볼릭 링크 제외");
    assert_eq!(ex[3], "📄 제외 확장자 관리 (7개)");
    assert_eq!(ex[4], "📁 제외 폴더 관리 (8개)");
    let lg = log_menu_items(&c);
    assert_eq!(lg[0], "📂 로그 경로: /home/u/logs/stick");
    assert_eq!(lg[1], "🎚️  로그 레벨: info");
    let gn = general_menu_items(&c);
    assert_eq!(gn[1], "⏱️  감시 스캔 간격: 5초");
    assert_eq!(gn.len(), 4);
    assert_eq!(gn[3], "✅ 부팅 시 자동 시작 (LaunchAgent)");
}

#[test]
fn watched_folders_and_hints() {
    let mut a = app();
    a.current_screen = Screen::WatchPaths;
    assert!(shows_hint(&a));
    assert_eq!(screen_lines(&a, &vec![]), vec!["  (등록된 폴더 없음 - [a]로 추가)"]);
    a.config.watch_paths = vec!["/a".to_string(), "/b".to_string()];
    a.selected_index = 1;
    assert!(!shows_hint(&a));
    assert_eq!(screen_lines(&a, &vec![true, false]), vec!["  ✅ /a", "▶ ⚠️  /b"]);
    a.current_screen = Screen::ExcludeExtensions;
    a.config.exclude_extensions.clear();
    assert!(shows_hint(&a));
    assert_eq!(screen_lines(&a, &vec![true, false]), vec!["  (등록된 제외 확장자 없음 - [a]로 추가)"]);
}

#[test]
fn dialog_texts() {
    let mut a = app();
    a.input_buffer = "abc".to_string();
    assert_eq!(input_text(&a), "입력:\n\n> abc▏");
    a.input_target = Some(InputTarget::EditScanInterval);
    assert_eq!(input_text(&a), "스캔 간격(초) 입력:\n\n> abc▏");
    assert_eq!(confirm_text(), "정말 삭제하시겠습니까?\n\n  [y] 예  [n] 아니오");
}

#[test]
fn picker_lines_marks_and_styles() {
    let mut a = app();
    a.current_screen = Screen::WatchPaths;
    match a.handle_key(Key::Char('a')) {
        KeyOutcome::ListDir(d) => assert_eq!(d, "/home/u"),
        other => panic!("unexpected {:?}", other),
    }
    a.refresh_dir_picker(Some("/home".to_string()), vec!["/home/u/b".to_string(), "/home/u/a".to_string()]);
    a.handle_key(Key::Down);
    a.handle_key(Key::Char(' '));
    let dp = a.dir_picker.as_ref().unwrap();
    assert_eq!(
        picker_lines(dp),
        vec!["  [ ] 📁 .. (상위 폴더로)", "▶ [x] 📁 a", "  [ ] 📁 b"]
    );
    assert_eq!(picker_location(dp), " 현재 위치: /home/u");
    assert_eq!(confirm_button(dp), "✅ 선택 완료 (1개)");
    assert_eq!(picker_style(dp, 1), LineStyle::Highlight);
    assert_eq!(picker_style(dp, 2), LineStyle::Plain);
    assert_eq!(screen_lines(&a, &vec![]), picker_lines(a.dir_picker.as_ref().unwrap()));
    a.handle_key(Key::Tab);
    let dp = a.dir_picker.as_ref().unwrap();
    assert_eq!(dp.focus, DirPickerFocus::Confirm);
    assert_eq!(picker_style(dp, 1), LineStyle::Ticked);
}
