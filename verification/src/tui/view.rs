//! What the settings screen shows: the placement of the window, the titles,
//! the lines of each menu and of the folder picker, and the texts of the
//! dialogs. Drawing them is left to the terminal front end.

use vstd::prelude::*;
use crate::config::{StickConfig, views};
use crate::path::{file_name, file_name_of};
use crate::text::{decimal, decimal_string};
use super::app::{contains_string, select_post, App, DirPickerFocus, DirPickerState, InputTarget, Screen};

verus! {

/// A rectangle of terminal cells.
#[derive(Clone, Copy, Debug, PartialEq, Eq, Structural)]
pub struct Area {
    /// Left column.
    pub x: u16,
    /// Top row.
    pub y: u16,
    /// Width in cells.
    pub width: u16,
    /// Height in cells.
    pub height: u16,
}

/// The widest the window gets.
pub const MAX_WIDTH: u16 = 70;

/// The tallest the window gets.
pub const MAX_HEIGHT: u16 = 24;

/// The smaller of two numbers.
pub open spec fn min_spec(a: int, b: int) -> int {
    if a <= b { a } else { b }
}

/// The window inside the terminal: at most `MAX_WIDTH` by `MAX_HEIGHT`,
/// centred (the odd cell left over goes to the right and to the bottom).
pub open spec fn app_area_spec(term: Area) -> Area {
    let w = min_spec(MAX_WIDTH as int, term.width as int);
    let h = min_spec(MAX_HEIGHT as int, term.height as int);
    Area {
        x: (term.x + (term.width - w) / 2) as u16,
        y: (term.y + (term.height - h) / 2) as u16,
        width: w as u16,
        height: h as u16,
    }
}

/// Places the window inside the terminal area (see `app_area_spec`).
pub fn app_area(term: Area) -> (a: Area)
    requires
        term.x + term.width <= u16::MAX,
        term.y + term.height <= u16::MAX,
    ensures
        a == app_area_spec(term),
        a.x + a.width <= term.x + term.width,
        a.y + a.height <= term.y + term.height,
{
    let width: u16 = if MAX_WIDTH <= term.width { MAX_WIDTH } else { term.width };
    let height: u16 = if MAX_HEIGHT <= term.height { MAX_HEIGHT } else { term.height };
    let x: u16 = term.x + (term.width - width) / 2;
    let y: u16 = term.y + (term.height - height) / 2;
    Area { x, y, width, height }
}

/// The title at the top of each screen.
pub open spec fn screen_title_spec(screen: Screen) -> Seq<char> {
    match screen {
        Screen::Main => " 🔧 stick 설정 "@,
        Screen::WatchPaths => " 📂 감시 폴더 관리 "@,
        Screen::ExcludeSettings => " 🚫 제외 설정 "@,
        Screen::ExcludeExtensions => " 📄 제외 확장자 "@,
        Screen::ExcludeDirs => " 📁 제외 폴더 "@,
        Screen::LogSettings => " 📋 로그 설정 "@,
        Screen::GeneralSettings => " ⚙️  일반 설정 "@,
        Screen::DirPicker => " 🔍 폴더 선택기 "@,
    }
}

/// The title at the top of a screen.
pub fn screen_title(screen: Screen) -> (s: String)
    ensures
        s@ == screen_title_spec(screen),
{
    match screen {
        Screen::Main => " 🔧 stick 설정 ".to_owned(),
        Screen::WatchPaths => " 📂 감시 폴더 관리 ".to_owned(),
        Screen::ExcludeSettings => " 🚫 제외 설정 ".to_owned(),
        Screen::ExcludeExtensions => " 📄 제외 확장자 ".to_owned(),
        Screen::ExcludeDirs => " 📁 제외 폴더 ".to_owned(),
        Screen::LogSettings => " 📋 로그 설정 ".to_owned(),
        Screen::GeneralSettings => " ⚙️  일반 설정 ".to_owned(),
        Screen::DirPicker => " 🔍 폴더 선택기 ".to_owned(),
    }
}

/// The mark in front of a line: an arrow on the highlighted one.
pub open spec fn prefix_spec(highlighted: bool) -> Seq<char> {
    if highlighted { "▶ "@ } else { "  "@ }
}

fn prefix(highlighted: bool) -> (s: String)
    ensures
        s@ == prefix_spec(highlighted),
{
    if highlighted { "▶ ".to_owned() } else { "  ".to_owned() }
}

/// Menu entries with their marks, the arrow on entry `selected`.
pub open spec fn with_marks(items: Seq<Seq<char>>, selected: int) -> Seq<Seq<char>> {
    Seq::new(items.len(), |i: int| prefix_spec(i == selected) + items[i])
}

fn marked(items: Vec<String>, selected: usize) -> (r: Vec<String>)
    ensures
        views(r@) == with_marks(views(items@), selected as int),
{
    let mut r: Vec<String> = Vec::new();
    let mut i: usize = 0;
    while i < items.len()
        invariant
            i <= items@.len(),
            r@.len() == i,
            forall|j: int| 0 <= j < i ==> #[trigger] r@[j]@ == prefix_spec(j == selected) + items@[j]@,
        decreases items@.len() - i,
    {
        let mut line = prefix(i == selected);
        line.append(items[i].as_str());
        r.push(line);
        i = i + 1;
    }
    assert(views(r@) =~= with_marks(views(items@), selected as int));
    r
}

/// A count in brackets: `(n개)`.
pub open spec fn count_spec(n: nat) -> Seq<char> {
    "("@ + decimal(n) + "개)"@
}

fn with_count(text: &str, n: usize) -> (s: String)
    ensures
        s@ == text@ + count_spec(n as nat),
{
    let mut s = text.to_owned();
    s.append("(");
    s.append(decimal_string(n as u64).as_str());
    s.append("개)");
    s
}

/// A switch shown as a box, ticked when on.
pub open spec fn toggle_spec(on: bool) -> Seq<char> {
    if on { "✅"@ } else { "⬜"@ }
}

fn after_toggle(on: bool, text: &str) -> (s: String)
    ensures
        s@ == toggle_spec(on) + text@,
{
    let mut s = if on { "✅".to_owned() } else { "⬜".to_owned() };
    s.append(text);
    s
}

/// The entries of the main menu.
pub open spec fn main_menu_spec(c: StickConfig) -> Seq<Seq<char>> {
    seq![
        "📂 감시 폴더 관리 "@ + count_spec(c.watch_paths@.len()),
        "🚫 제외 설정"@,
        "📋 로그 설정"@,
        "⚙️  일반 설정"@,
        "💾 저장 및 종료"@,
        "❌ 취소"@,
    ]
}

/// The entries of the main menu.
pub fn main_menu_items(c: &StickConfig) -> (r: Vec<String>)
    ensures
        views(r@) == main_menu_spec(*c),
{
    let mut r: Vec<String> = Vec::new();
    r.push(with_count("📂 감시 폴더 관리 ", c.watch_paths.len()));
    r.push("🚫 제외 설정".to_owned());
    r.push("📋 로그 설정".to_owned());
    r.push("⚙️  일반 설정".to_owned());
    r.push("💾 저장 및 종료".to_owned());
    r.push("❌ 취소".to_owned());
    assert(views(r@) =~= main_menu_spec(*c));
    r
}

/// The entries of the exclusion settings.
pub open spec fn exclude_menu_spec(c: StickConfig) -> Seq<Seq<char>> {
    seq![
        toggle_spec(c.exclude_hidden) + " 숨김 파일 제외 (.으로 시작하는 파일)"@,
        toggle_spec(c.exclude_symlinks) + " 심볼릭 링크 제외"@,
        toggle_spec(c.exclude_temp_files) + " 임시 파일 제외 (~로 끝나는 파일)"@,
        "📄 제외 확장자 관리 "@ + count_spec(c.exclude_extensions@.len()),
        "📁 제외 폴더 관리 "@ + count_spec(c.exclude_directories@.len()),
        toggle_spec(c.confirm_before_scan) + " 스캔 시 대화형 확인"@,
    ]
}

/// The entries of the exclusion settings.
pub fn exclude_menu_items(c: &StickConfig) -> (r: Vec<String>)
    ensures
        views(r@) == exclude_menu_spec(*c),
{
    let mut r: Vec<String> = Vec::new();
    r.push(after_toggle(c.exclude_hidden, " 숨김 파일 제외 (.으로 시작하는 파일)"));
    r.push(after_toggle(c.exclude_symlinks, " 심볼릭 링크 제외"));
    r.push(after_toggle(c.exclude_temp_files, " 임시 파일 제외 (~로 끝나는 파일)"));
    r.push(with_count("📄 제외 확장자 관리 ", c.exclude_extensions.len()));
    r.push(with_count("📁 제외 폴더 관리 ", c.exclude_directories.len()));
    r.push(after_toggle(c.confirm_before_scan, " 스캔 시 대화형 확인"));
    assert(views(r@) =~= exclude_menu_spec(*c));
    r
}

/// The entries of the log settings.
pub open spec fn log_menu_spec(c: StickConfig) -> Seq<Seq<char>> {
    seq![
        "📂 로그 경로: "@ + c.log_path@,
        "🎚️  로그 레벨: "@ + c.log_level@,
        "📊 로그 디렉토리 크기 확인"@,
    ]
}

/// The entries of the log settings.
pub fn log_menu_items(c: &StickConfig) -> (r: Vec<String>)
    ensures
        views(r@) == log_menu_spec(*c),
{
    let mut r: Vec<String> = Vec::new();
    let mut a = "📂 로그 경로: ".to_owned();
    a.append(c.log_path.as_str());
    r.push(a);
    let mut b = "🎚️  로그 레벨: ".to_owned();
    b.append(c.log_level.as_str());
    r.push(b);
    r.push("📊 로그 디렉토리 크기 확인".to_owned());
    assert(views(r@) =~= log_menu_spec(*c));
    r
}

/// The entries of the general settings.
pub open spec fn general_menu_spec(c: StickConfig) -> Seq<Seq<char>> {
    seq![
        toggle_spec(c.recursive) + " 하위 폴더 재귀 탐색"@,
        "⏱️  감시 스캔 간격: "@ + decimal(c.scan_interval_seconds as nat) + "초"@,
        toggle_spec(c.confirm_before_scan) + " 스캔 시 대화형 확인"@,
        toggle_spec(c.auto_start) + " 부팅 시 자동 시작 (LaunchAgent)"@,
    ]
}

/// The entries of the general settings.
pub fn general_menu_items(c: &StickConfig) -> (r: Vec<String>)
    ensures
        views(r@) == general_menu_spec(*c),
{
    let mut r: Vec<String> = Vec::new();
    r.push(after_toggle(c.recursive, " 하위 폴더 재귀 탐색"));
    let mut b = "⏱️  감시 스캔 간격: ".to_owned();
    b.append(decimal_string(c.scan_interval_seconds).as_str());
    b.append("초");
    r.push(b);
    r.push(after_toggle(c.confirm_before_scan, " 스캔 시 대화형 확인"));
    r.push(after_toggle(c.auto_start, " 부팅 시 자동 시작 (LaunchAgent)"));
    assert(views(r@) =~= general_menu_spec(*c));
    r
}

/// The line of a watched folder: a tick when it is on disk, a warning sign
/// when it is not.
pub open spec fn watch_line_spec(path: Seq<char>, exists: bool) -> Seq<char> {
    (if exists { "✅"@ } else { "⚠️ "@ }) + " "@ + path
}

/// The lines of the watched folders (`exists[i]` says whether the `i`-th is on disk).
pub open spec fn watch_lines_spec(paths: Seq<Seq<char>>, exists: Seq<bool>) -> Seq<Seq<char>> {
    Seq::new(paths.len(), |i: int| watch_line_spec(paths[i], exists[i]))
}

/// What an empty list of watched folders shows.
pub open spec fn no_watch_paths_line() -> Seq<char> {
    "  (등록된 폴더 없음 - [a]로 추가)"@
}

fn watch_lines(paths: &Vec<String>, exists: &Vec<bool>) -> (r: Vec<String>)
    requires
        exists@.len() == paths@.len(),
    ensures
        views(r@) == watch_lines_spec(views(paths@), exists@),
{
    let mut r: Vec<String> = Vec::new();
    let mut i: usize = 0;
    while i < paths.len()
        invariant
            i <= paths@.len(),
            exists@.len() == paths@.len(),
            r@.len() == i,
            forall|j: int| 0 <= j < i ==> #[trigger] r@[j]@ == watch_line_spec(paths@[j]@, exists@[j]),
        decreases paths@.len() - i,
    {
        let mut line = if exists[i] { "✅".to_owned() } else { "⚠️ ".to_owned() };
        line.append(" ");
        line.append(paths[i].as_str());
        r.push(line);
        i = i + 1;
    }
    assert(views(r@) =~= watch_lines_spec(views(paths@), exists@));
    r
}

/// What an empty list of extensions or folder names shows.
pub open spec fn empty_list_line(title: Seq<char>) -> Seq<char> {
    "  (등록된 "@ + title + " 없음 - [a]로 추가)"@
}

/// The lines of an editable list: its entries with marks, or a hint when empty.
pub open spec fn list_editor_spec(title: Seq<char>, items: Seq<Seq<char>>, selected: int) -> Seq<Seq<char>> {
    if items.len() == 0 { seq![empty_list_line(title)] } else { with_marks(items, selected) }
}

fn list_editor_lines(title: &str, items: &Vec<String>, selected: usize) -> (r: Vec<String>)
    ensures
        views(r@) == list_editor_spec(title@, views(items@), selected as int),
{
    if items.len() == 0 {
        let mut line = "  (등록된 ".to_owned();
        line.append(title);
        line.append(" 없음 - [a]로 추가)");
        let mut r: Vec<String> = Vec::new();
        r.push(line);
        assert(views(r@) =~= seq![empty_list_line(title@)]);
        r
    } else {
        marked(items.clone(), selected)
    }
}

/// The mark of a folder in the picker: ticked or not.
pub open spec fn check_spec(ticked: bool) -> Seq<char> {
    if ticked { "[x]"@ } else { "[ ]"@ }
}

/// The entry of the picker that leads up: the listed parent folder (with no
/// parent, only an empty path would be taken for it).
pub open spec fn is_up_entry(dp: DirPickerState, p: Seq<char>) -> bool {
    match dp.parent_dir {
        Some(q) => p == q@,
        None => p.len() == 0,
    }
}

/// The name shown for a listed folder.
pub open spec fn picker_name_spec(dp: DirPickerState, p: Seq<char>) -> Seq<char> {
    if is_up_entry(dp, p) {
        "📁 .. (상위 폴더로)"@
    } else {
        "📁 "@ + match file_name_of(p) {
            Some(n) => n,
            None => Seq::<char>::empty(),
        }
    }
}

/// The line of the `i`-th listed folder: the arrow when highlighted, its
/// tick mark, and its name.
pub open spec fn picker_line_spec(dp: DirPickerState, i: int) -> Seq<char> {
    let p = dp.items@[i]@;
    prefix_spec(dp.selected_index == i) + check_spec(views(dp.selected_paths@).contains(p)) + " "@
        + picker_name_spec(dp, p)
}

/// The lines of the folder picker.
pub open spec fn picker_lines_spec(dp: DirPickerState) -> Seq<Seq<char>> {
    Seq::new(dp.items@.len(), |i: int| picker_line_spec(dp, i))
}

fn picker_name(dp: &DirPickerState, p: &String) -> (s: String)
    ensures
        s@ == picker_name_spec(*dp, p@),
{
    let up = match &dp.parent_dir {
        Some(q) => *p == *q,
        None => p.as_str().unicode_len() == 0,
    };
    if up {
        "📁 .. (상위 폴더로)".to_owned()
    } else {
        let mut s = "📁 ".to_owned();
        match file_name(p.as_str()) {
            Some(n) => {
                s.append(n.as_str());
            },
            None => {},
        }
        s
    }
}

/// The lines of the folder picker.
pub fn picker_lines(dp: &DirPickerState) -> (r: Vec<String>)
    ensures
        views(r@) == picker_lines_spec(*dp),
{
    let mut r: Vec<String> = Vec::new();
    let mut i: usize = 0;
    while i < dp.items.len()
        invariant
            i <= dp.items@.len(),
            r@.len() == i,
            forall|j: int| 0 <= j < i ==> #[trigger] r@[j]@ == picker_line_spec(*dp, j),
        decreases dp.items@.len() - i,
    {
        let p = &dp.items[i];
        let mut line = prefix(dp.selected_index == i);
        if contains_string(&dp.selected_paths, p) {
            line.append("[x]");
        } else {
            line.append("[ ]");
        }
        line.append(" ");
        let name = picker_name(dp, p);
        line.append(name.as_str());
        r.push(line);
        i = i + 1;
    }
    assert(views(r@) =~= picker_lines_spec(*dp));
    r
}

/// The lines in the middle of the screen, for what is on show (`exists[i]`
/// says whether the `i`-th watched folder is on disk). The highlighted menu
/// entry carries the arrow.
pub open spec fn screen_lines_spec(a: App, exists: Seq<bool>) -> Seq<Seq<char>> {
    let c = a.config;
    let sel = a.selected_index as int;
    match a.current_screen {
        Screen::Main => with_marks(main_menu_spec(c), sel),
        Screen::WatchPaths => if c.watch_paths@.len() == 0 {
            seq![no_watch_paths_line()]
        } else {
            with_marks(watch_lines_spec(views(c.watch_paths@), exists), sel)
        },
        Screen::ExcludeSettings => with_marks(exclude_menu_spec(c), sel),
        Screen::ExcludeExtensions => list_editor_spec("제외 확장자"@, views(c.exclude_extensions@), sel),
        Screen::ExcludeDirs => list_editor_spec("제외 폴더"@, views(c.exclude_directories@), sel),
        Screen::LogSettings => with_marks(log_menu_spec(c), sel),
        Screen::GeneralSettings => with_marks(general_menu_spec(c), sel),
        Screen::DirPicker => match a.dir_picker {
            Some(dp) => picker_lines_spec(dp),
            None => Seq::empty(),
        },
    }
}

/// The lines in the middle of the screen (see `screen_lines_spec`).
pub fn screen_lines(a: &App, exists: &Vec<bool>) -> (r: Vec<String>)
    requires
        exists@.len() == a.config.watch_paths@.len(),
    ensures
        views(r@) == screen_lines_spec(*a, exists@),
{
    let c = &a.config;
    let sel = a.selected_index;
    match a.current_screen {
        Screen::Main => marked(main_menu_items(c), sel),
        Screen::WatchPaths => {
            if c.watch_paths.len() == 0 {
                let mut r: Vec<String> = Vec::new();
                r.push("  (등록된 폴더 없음 - [a]로 추가)".to_owned());
                assert(views(r@) =~= seq![no_watch_paths_line()]);
                r
            } else {
                marked(watch_lines(&c.watch_paths, exists), sel)
            }
        },
        Screen::ExcludeSettings => marked(exclude_menu_items(c), sel),
        Screen::ExcludeExtensions => list_editor_lines("제외 확장자", &c.exclude_extensions, sel),
        Screen::ExcludeDirs => list_editor_lines("제외 폴더", &c.exclude_directories, sel),
        Screen::LogSettings => marked(log_menu_items(c), sel),
        Screen::GeneralSettings => marked(general_menu_items(c), sel),
        Screen::DirPicker => match &a.dir_picker {
            Some(dp) => picker_lines(dp),
            None => {
                let r: Vec<String> = Vec::new();
                assert(views(r@) =~= Seq::<Seq<char>>::empty());
                r
            },
        },
    }
}

/// The frame title of the list on each screen, with its keys (the picker's
/// list has none).
pub open spec fn list_title_spec(screen: Screen) -> Seq<char> {
    match screen {
        Screen::Main => " 메뉴 "@,
        Screen::WatchPaths => " 감시 폴더 [a]추가 [d]삭제 [Esc]뒤로 "@,
        Screen::ExcludeSettings => " 제외 설정 [Space/Enter]토글 [Esc]뒤로 "@,
        Screen::ExcludeExtensions => " 제외 확장자 [a]추가 [d]삭제 [Esc]뒤로 "@,
        Screen::ExcludeDirs => " 제외 폴더 [a]추가 [d]삭제 [Esc]뒤로 "@,
        Screen::LogSettings => " 로그 설정 [Enter]편집 [Esc]뒤로 "@,
        Screen::GeneralSettings => " 일반 설정 [Space/Enter]토글 [Esc]뒤로 "@,
        Screen::DirPicker => ""@,
    }
}

/// The frame title of the list on a screen.
pub fn list_title(screen: Screen) -> (s: String)
    ensures
        s@ == list_title_spec(screen),
{
    match screen {
        Screen::Main => " 메뉴 ".to_owned(),
        Screen::WatchPaths => " 감시 폴더 [a]추가 [d]삭제 [Esc]뒤로 ".to_owned(),
        Screen::ExcludeSettings => " 제외 설정 [Space/Enter]토글 [Esc]뒤로 ".to_owned(),
        Screen::ExcludeExtensions => " 제외 확장자 [a]추가 [d]삭제 [Esc]뒤로 ".to_owned(),
        Screen::ExcludeDirs => " 제외 폴더 [a]추가 [d]삭제 [Esc]뒤로 ".to_owned(),
        Screen::LogSettings => " 로그 설정 [Enter]편집 [Esc]뒤로 ".to_owned(),
        Screen::GeneralSettings => " 일반 설정 [Space/Enter]토글 [Esc]뒤로 ".to_owned(),
        Screen::DirPicker => "".to_owned(),
    }
}

/// What the input dialog asks for (a search in the picker, and no target at
/// all, get the plain prompt).
pub open spec fn input_label_spec(target: Option<InputTarget>) -> Seq<char> {
    match target {
        Some(InputTarget::AddExcludeExtension) => "제외 확장자 입력 (.ext):"@,
        Some(InputTarget::AddExcludeDir) => "제외 폴더명 입력:"@,
        Some(InputTarget::EditLogPath) => "로그 경로 입력:"@,
        Some(InputTarget::EditScanInterval) => "스캔 간격(초) 입력:"@,
        _ => "입력:"@,
    }
}

/// The text of the input dialog: the prompt, then the typed text after `> `
/// with a cursor bar.
pub open spec fn input_text_spec(target: Option<InputTarget>, typed: Seq<char>) -> Seq<char> {
    input_label_spec(target) + "\n\n> "@ + typed + "▏"@
}

/// The text of the input dialog.
pub fn input_text(a: &App) -> (s: String)
    ensures
        s@ == input_text_spec(a.input_target, a.input_buffer@),
{
    let mut s = match a.input_target {
        Some(InputTarget::AddExcludeExtension) => "제외 확장자 입력 (.ext):".to_owned(),
        Some(InputTarget::AddExcludeDir) => "제외 폴더명 입력:".to_owned(),
        Some(InputTarget::EditLogPath) => "로그 경로 입력:".to_owned(),
        Some(InputTarget::EditScanInterval) => "스캔 간격(초) 입력:".to_owned(),
        _ => "입력:".to_owned(),
    };
    s.append("\n\n> ");
    s.append(a.input_buffer.as_str());
    s.append("▏");
    s
}

/// The text of the dialog that confirms a deletion.
pub open spec fn confirm_text_spec() -> Seq<char> {
    "정말 삭제하시겠습니까?\n\n  [y] 예  [n] 아니오"@
}

/// The text of the dialog that confirms a deletion.
pub fn confirm_text() -> (s: String)
    ensures
        s@ == confirm_text_spec(),
{
    "정말 삭제하시겠습니까?\n\n  [y] 예  [n] 아니오".to_owned()
}

/// How a line of the picker is drawn.
#[derive(Clone, Copy, Debug, PartialEq, Eq, Structural)]
pub enum LineStyle {
    /// Highlighted while the list has the focus.
    Highlight,
    /// Ticked.
    Ticked,
    /// Neither.
    Plain,
}

/// The style of the `i`-th folder in the picker: highlighted when the list
/// has the focus and the highlight is on it, else ticked when it is ticked.
pub open spec fn picker_style_spec(dp: DirPickerState, i: int) -> LineStyle {
    if dp.selected_index == i && dp.focus == DirPickerFocus::List {
        LineStyle::Highlight
    } else if views(dp.selected_paths@).contains(dp.items@[i]@) {
        LineStyle::Ticked
    } else {
        LineStyle::Plain
    }
}

/// The style of the `i`-th folder in the picker.
pub fn picker_style(dp: &DirPickerState, i: usize) -> (st: LineStyle)
    requires
        i < dp.items@.len(),
    ensures
        st == picker_style_spec(*dp, i as int),
{
    if dp.selected_index == i && dp.focus == DirPickerFocus::List {
        LineStyle::Highlight
    } else if contains_string(&dp.selected_paths, &dp.items[i]) {
        LineStyle::Ticked
    } else {
        LineStyle::Plain
    }
}

/// The line above the picker's list.
pub open spec fn picker_location_spec(dp: DirPickerState) -> Seq<char> {
    " 현재 위치: "@ + dp.current_dir@
}

/// The line above the picker's list: the folder on show.
pub fn picker_location(dp: &DirPickerState) -> (s: String)
    ensures
        s@ == picker_location_spec(*dp),
{
    let mut s = " 현재 위치: ".to_owned();
    s.append(dp.current_dir.as_str());
    s
}

/// The label of the picker's confirm button: how many folders are ticked.
pub open spec fn confirm_button_spec(dp: DirPickerState) -> Seq<char> {
    "✅ 선택 완료 "@ + count_spec(dp.selected_paths@.len())
}

/// The label of the picker's confirm button.
pub fn confirm_button(dp: &DirPickerState) -> (s: String)
    ensures
        s@ == confirm_button_spec(*dp),
{
    with_count("✅ 선택 완료 ", dp.selected_paths.len())
}

/// The screen shows a hint instead of entries: one of the editable lists is on
/// show and empty.
pub open spec fn shows_hint_spec(a: App) -> bool {
    match a.current_screen {
        Screen::WatchPaths => a.config.watch_paths@.len() == 0,
        Screen::ExcludeExtensions => a.config.exclude_extensions@.len() == 0,
        Screen::ExcludeDirs => a.config.exclude_directories@.len() == 0,
        _ => false,
    }
}

/// Whether the middle of the screen shows a hint instead of entries.
pub fn shows_hint(a: &App) -> (b: bool)
    ensures
        b == shows_hint_spec(*a),
{
    match a.current_screen {
        Screen::WatchPaths => a.config.watch_paths.len() == 0,
        Screen::ExcludeExtensions => a.config.exclude_extensions.len() == 0,
        Screen::ExcludeDirs => a.config.exclude_directories.len() == 0,
        _ => false,
    }
}

/// Enter on a switch row of the exclusion settings (rows 0, 1, 2 and 5)
/// flips the mark that row shows and changes no other row, and changes
/// only the setting that row names: row 0 hidden names, row 1 symbolic
/// links, row 2 temporary files, row 5 asking before a scan.
pub proof fn lemma_exclude_rows_switch_their_setting(a: App, b: App)
    requires
        a.current_screen == Screen::ExcludeSettings,
        a.selected_index == 0 || a.selected_index == 1 || a.selected_index == 2 || a.selected_index == 5,
        select_post(a, b),
    ensures
        b == (App { config: b.config, ..a }),
        exclude_menu_spec(b.config)[a.selected_index as int] != exclude_menu_spec(a.config)[a.selected_index as int],
        forall|j: int| 0 <= j < 6 && j != a.selected_index ==>
            #[trigger] exclude_menu_spec(b.config)[j] == exclude_menu_spec(a.config)[j],
        a.selected_index == 0 ==> b.config == (StickConfig { exclude_hidden: !a.config.exclude_hidden, ..a.config }),
        a.selected_index == 1 ==> b.config == (StickConfig { exclude_symlinks: !a.config.exclude_symlinks, ..a.config }),
        a.selected_index == 2 ==> b.config == (StickConfig { exclude_temp_files: !a.config.exclude_temp_files, ..a.config }),
        a.selected_index == 5 ==> b.config == (StickConfig { confirm_before_scan: !a.config.confirm_before_scan, ..a.config }),
{
    reveal_strlit("✅");
    reveal_strlit("⬜");
    let i = a.selected_index as int;
    let ra = exclude_menu_spec(a.config)[i];
    let rb = exclude_menu_spec(b.config)[i];
    assert(ra[0] != rb[0]);
}

} // verus!
