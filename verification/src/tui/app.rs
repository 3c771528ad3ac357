//! State of the settings screen and its transitions.

use vstd::prelude::*;
use crate::config::{StickConfig, views};
use crate::path::{file_name, file_name_of};
use crate::text::{
    chars_lt, chars_of, decimal, decimal_string, lex_lt, lowercase_of, parse_u64,
    parse_u64_spec, pop_char, push_char, text_eq, to_lowercase, trim, trim_spec,
};

verus! {

/// The screen on show.
#[derive(Clone, Copy, Debug, PartialEq, Eq, Structural)]
pub enum Screen {
    /// The main menu.
    Main,
    /// The watched folders.
    WatchPaths,
    /// The exclusion settings.
    ExcludeSettings,
    /// The excluded extensions.
    ExcludeExtensions,
    /// The excluded folder names.
    ExcludeDirs,
    /// The log settings.
    LogSettings,
    /// The general settings.
    GeneralSettings,
    /// The folder picker.
    DirPicker,
}

/// Which part of the folder picker has the focus.
#[derive(Clone, Copy, Debug, PartialEq, Eq, Structural)]
pub enum DirPickerFocus {
    /// The folder list.
    List,
    /// The confirm button.
    Confirm,
    /// The cancel button.
    Cancel,
}

/// What a text input is for.
#[derive(Clone, Copy, Debug, PartialEq, Eq, Structural)]
pub enum InputTarget {
    /// A new excluded extension.
    AddExcludeExtension,
    /// A new excluded folder name.
    AddExcludeDir,
    /// The log path.
    EditLogPath,
    /// The scan interval in seconds.
    EditScanInterval,
    /// A search in the folder picker.
    DirPickerSearch,
}

// ── Folder picker ────────────────────────────────────────────────────────

/// State of the folder picker.
#[derive(Debug)]
pub struct DirPickerState {
    /// The folder being shown.
    pub current_dir: String,
    /// Its parent folder, listed first when there is one.
    pub parent_dir: Option<String>,
    /// The listed folders: the parent first, then the sub-folders by name.
    pub items: Vec<String>,
    /// The highlighted entry.
    pub selected_index: usize,
    /// Where the focus is.
    pub focus: DirPickerFocus,
    /// The folders ticked so far, each once.
    pub selected_paths: Vec<String>,
}

/// The sort key of a listed folder: its final name in lower case.
pub open spec fn name_key(p: Seq<char>) -> Seq<char> {
    lowercase_of(
        match file_name_of(p) {
            Some(n) => n,
            None => Seq::<char>::empty(),
        },
    )
}

/// Where `x` goes in `t`: before the first entry whose key is greater.
pub open spec fn first_greater(t: Seq<Seq<char>>, x: Seq<char>) -> nat
    decreases t.len(),
{
    if t.len() == 0 {
        0
    } else if lex_lt(name_key(x), name_key(t[0])) {
        0
    } else {
        1 + first_greater(t.drop_first(), x)
    }
}

/// The folders sorted by key, keeping the listing order among equal keys
/// (each folder inserted after those whose key is not greater).
pub open spec fn sort_by_name(s: Seq<Seq<char>>) -> Seq<Seq<char>>
    decreases s.len(),
{
    if s.len() == 0 {
        Seq::empty()
    } else {
        let t = sort_by_name(s.drop_last());
        t.insert(first_greater(t, s.last()) as int, s.last())
    }
}

/// The listing of a folder: its parent (if any), then its sub-folders by name.
pub open spec fn listing(parent: Option<Seq<char>>, subdirs: Seq<Seq<char>>) -> Seq<Seq<char>> {
    match parent {
        Some(p) => seq![p] + sort_by_name(subdirs),
        None => sort_by_name(subdirs),
    }
}

proof fn lemma_first_greater_at(t: Seq<Seq<char>>, x: Seq<char>, j: int)
    requires
        0 <= j <= t.len(),
        forall|k: int| 0 <= k < j ==> !lex_lt(name_key(x), name_key(#[trigger] t[k])),
        j == t.len() || lex_lt(name_key(x), name_key(t[j])),
    ensures
        first_greater(t, x) == j,
    decreases j,
{
    if j > 0 {
        assert forall|k: int| 0 <= k < j - 1 implies !lex_lt(name_key(x), name_key(#[trigger] t.drop_first()[k])) by {
            assert(t.drop_first()[k] == t[k + 1]);
        }
        if j < t.len() {
            assert(t.drop_first()[j - 1] == t[j]);
        }
        assert(!lex_lt(name_key(x), name_key(t[0])));
        lemma_first_greater_at(t.drop_first(), x, j - 1);
    }
}

fn name_key_of(p: &String) -> (k: Vec<char>)
    ensures
        k@ == name_key(p@),
{
    let text = match file_name(p.as_str()) {
        Some(n) => n,
        None => String::new(),
    };
    let low = to_lowercase(text.as_str());
    chars_of(low.as_str())
}

/// The folders sorted by their lower-case names (see `sort_by_name`).
pub fn sort_dirs_by_name(dirs: Vec<String>) -> (r: Vec<String>)
    ensures
        views(r@) == sort_by_name(views(dirs@)),
{
    let mut sorted: Vec<String> = Vec::new();
    let mut keys: Vec<Vec<char>> = Vec::new();
    let mut i: usize = 0;
    assert(views(dirs@).subrange(0, 0) == Seq::<Seq<char>>::empty());
    assert(views(sorted@) =~= Seq::<Seq<char>>::empty());
    while i < dirs.len()
        invariant
            i <= dirs@.len(),
            keys@.len() == sorted@.len(),
            forall|k: int| 0 <= k < keys@.len() ==> #[trigger] keys@[k]@ == name_key(sorted@[k]@),
            views(sorted@) == sort_by_name(views(dirs@).subrange(0, i as int)),
        decreases dirs@.len() - i,
    {
        let x = dirs[i].clone();
        let kx = name_key_of(&x);
        let mut j: usize = 0;
        while j < sorted.len() && !chars_lt(&kx, &keys[j])
            invariant
                j <= sorted@.len(),
                keys@.len() == sorted@.len(),
                kx@ == name_key(x@),
                forall|k: int| 0 <= k < keys@.len() ==> #[trigger] keys@[k]@ == name_key(sorted@[k]@),
                forall|k: int| 0 <= k < j ==> !lex_lt(name_key(x@), name_key(#[trigger] views(sorted@)[k])),
            decreases sorted@.len() - j,
        {
            assert(keys@[j as int]@ == name_key(views(sorted@)[j as int]));
            j = j + 1;
        }
        proof {
            if j < sorted@.len() {
                assert(keys@[j as int]@ == name_key(views(sorted@)[j as int]));
            }
            lemma_first_greater_at(views(sorted@), x@, j as int);
            let pre = views(dirs@).subrange(0, i + 1);
            assert(pre.drop_last() == views(dirs@).subrange(0, i as int));
            assert(pre.last() == x@);
        }
        let ghost old_sorted = sorted@;
        let ghost old_keys = keys@;
        sorted.insert(j, x);
        keys.insert(j, kx);
        assert(views(sorted@) =~= views(old_sorted).insert(j as int, x@));
        assert forall|k: int| 0 <= k < keys@.len() implies #[trigger] keys@[k]@ == name_key(sorted@[k]@) by {
            if k < j {
                assert(keys@[k] == old_keys[k] && sorted@[k] == old_sorted[k]);
            } else if k > j {
                assert(keys@[k] == old_keys[k - 1] && sorted@[k] == old_sorted[k - 1]);
            }
        }
        i = i + 1;
    }
    assert(views(dirs@).subrange(0, dirs@.len() as int) == views(dirs@));
    sorted
}

/// Folders in non-decreasing order of their keys.
pub open spec fn sorted_by_name(t: Seq<Seq<char>>) -> bool {
    forall|i: int, j: int| 0 <= i < j < t.len() ==> !lex_lt(name_key(#[trigger] t[j]), name_key(#[trigger] t[i]))
}

proof fn lemma_lex_lt_irreflexive(a: Seq<char>)
    ensures
        !lex_lt(a, a),
    decreases a.len(),
{
    if a.len() > 0 {
        lemma_lex_lt_irreflexive(a.drop_first());
    }
}

proof fn lemma_lex_lt_transitive(a: Seq<char>, b: Seq<char>, c: Seq<char>)
    requires
        lex_lt(a, b),
        lex_lt(b, c),
    ensures
        lex_lt(a, c),
    decreases a.len(),
{
    if a.len() > 0 && a[0] == b[0] && b[0] == c[0] {
        lemma_lex_lt_transitive(a.drop_first(), b.drop_first(), c.drop_first());
    }
}

proof fn lemma_first_greater_bounds(t: Seq<Seq<char>>, x: Seq<char>)
    ensures
        first_greater(t, x) <= t.len(),
        forall|k: int| 0 <= k < first_greater(t, x) ==> !lex_lt(name_key(x), name_key(#[trigger] t[k])),
        first_greater(t, x) < t.len() ==> lex_lt(name_key(x), name_key(t[first_greater(t, x) as int])),
    decreases t.len(),
{
    if t.len() > 0 && !lex_lt(name_key(x), name_key(t[0])) {
        let r = t.drop_first();
        lemma_first_greater_bounds(r, x);
        assert forall|k: int| 0 <= k < first_greater(t, x) implies !lex_lt(name_key(x), name_key(#[trigger] t[k])) by {
            if k > 0 {
                assert(t[k] == r[k - 1]);
            }
        }
        if first_greater(t, x) < t.len() {
            assert(t[first_greater(t, x) as int] == r[first_greater(r, x) as int]);
        }
    }
}

/// The sub-folders of the picker come out sorted by their lower-case names,
/// and each folder comes out exactly as often as it went in.
pub proof fn lemma_sort_by_name_sorted_permutation(s: Seq<Seq<char>>)
    ensures
        sorted_by_name(sort_by_name(s)),
        sort_by_name(s).to_multiset() == s.to_multiset(),
    decreases s.len(),
{
    broadcast use vstd::seq_lib::group_to_multiset_ensures;
    if s.len() > 0 {
        let x = s.last();
        let t = sort_by_name(s.drop_last());
        lemma_sort_by_name_sorted_permutation(s.drop_last());
        lemma_first_greater_bounds(t, x);
        let p = first_greater(t, x) as int;
        let r = t.insert(p, x);
        assert(r == sort_by_name(s));
        assert(s.drop_last().push(x) == s);
        assert forall|i: int, j: int| 0 <= i < j < r.len() implies !lex_lt(name_key(#[trigger] r[j]), name_key(#[trigger] r[i])) by {
            if j < p {
                assert(r[i] == t[i] && r[j] == t[j]);
            } else if j == p {
                assert(r[i] == t[i] && r[j] == x);
            } else if i < p {
                assert(r[i] == t[i] && r[j] == t[j - 1]);
            } else if i == p {
                assert(r[i] == x && r[j] == t[j - 1]);
                if lex_lt(name_key(t[j - 1]), name_key(x)) {
                    lemma_lex_lt_transitive(name_key(t[j - 1]), name_key(x), name_key(t[p]));
                    if j - 1 == p {
                        lemma_lex_lt_irreflexive(name_key(t[p]));
                    }
                }
            } else {
                assert(r[i] == t[i - 1] && r[j] == t[j - 1]);
            }
        }
    }
}

/// The picker is well formed: the highlight is on an entry (or at the top
/// of an empty list) and no folder is ticked twice.
pub open spec fn picker_wf(dp: DirPickerState) -> bool {
    &&& (dp.selected_index == 0 || dp.selected_index < dp.items@.len())
    &&& views(dp.selected_paths@).no_duplicates()
}

impl DirPickerState {
    /// A picker on `current_dir`, not listed yet.
    pub fn new(current_dir: String) -> (dp: DirPickerState)
        ensures
            dp.current_dir == current_dir,
            dp.parent_dir is None,
            dp.items@.len() == 0,
            dp.selected_index == 0,
            dp.focus == DirPickerFocus::List,
            dp.selected_paths@.len() == 0,
            picker_wf(dp),
    {
        let dp = DirPickerState {
            current_dir,
            parent_dir: None,
            items: Vec::new(),
            selected_index: 0,
            focus: DirPickerFocus::List,
            selected_paths: Vec::new(),
        };
        assert(views(dp.selected_paths@) =~= Seq::<Seq<char>>::empty());
        dp
    }

    /// Lists the current folder: `parent` is its parent folder (if any),
    /// `subdirs` the folders inside it. The parent comes first, then the
    /// sub-folders sorted by name; the highlight goes to the top.
    pub fn refresh_items(&mut self, parent: Option<String>, subdirs: Vec<String>)
        ensures
            views(final(self).items@) == listing(crate::path::opt_view(parent), views(subdirs@)),
            final(self).selected_index == 0,
            final(self).parent_dir == parent,
            final(self).current_dir == old(self).current_dir,
            final(self).focus == old(self).focus,
            final(self).selected_paths == old(self).selected_paths,
            picker_wf(*old(self)) ==> picker_wf(*final(self)),
    {
        let sorted = sort_dirs_by_name(subdirs);
        let mut items: Vec<String> = Vec::new();
        match &parent {
            Some(p) => {
                items.push(p.clone());
            },
            None => {},
        }
        let ghost head = views(items@);
        let mut k: usize = 0;
        while k < sorted.len()
            invariant
                k <= sorted@.len(),
                views(items@) == head + views(sorted@).subrange(0, k as int),
                items@.len() == head.len() + k,
            decreases sorted@.len() - k,
        {
            let ghost before = items@;
            let c = sorted[k].clone();
            assert(c@ == views(sorted@)[k as int]);
            items.push(c);
            assert(items@ == before.push(c));
            assert(views(items@) =~= head + views(sorted@).subrange(0, k + 1)) by {
                let lhs = views(items@);
                let rhs = head + views(sorted@).subrange(0, k + 1);
                assert(views(before) == head + views(sorted@).subrange(0, k as int));
                assert forall|j: int| 0 <= j < lhs.len() implies lhs[j] == rhs[j] by {
                    if j < before.len() {
                        assert(lhs[j] == views(before)[j]);
                        if j < head.len() {
                            assert(rhs[j] == head[j]);
                        } else {
                            assert(rhs[j] == views(sorted@)[j - head.len()]);
                            assert(views(before)[j] == views(sorted@)[j - head.len()]);
                        }
                    } else {
                        assert(lhs[j] == c@);
                    }
                }
            }
            k = k + 1;
        }
        assert(views(sorted@).subrange(0, sorted@.len() as int) == views(sorted@));
        self.items = items;
        self.selected_index = 0;
        self.parent_dir = parent;
    }
}

// ── The settings screen ──────────────────────────────────────────────────

/// Status line on the menus.
pub open spec fn status_main() -> Seq<char> {
    "[↑↓] 이동  [Enter] 선택  [q] 저장 후 종료"@
}

/// Status line in the folder picker.
pub open spec fn status_picker() -> Seq<char> {
    "[↑↓] 이동  [Enter] 폴더 진입  [Space] 선택/해제  [Tab] 포커스"@
}

/// Status line while text is typed.
pub open spec fn status_input() -> Seq<char> {
    "[Enter] 확인  [Esc] 취소"@
}

/// Status line while a deletion waits for confirmation.
pub open spec fn status_confirm_delete() -> Seq<char> {
    "정말 삭제하시겠습니까? [y/n]"@
}

/// Status line while searching in the picker.
pub open spec fn status_search() -> Seq<char> {
    "[↑/↓] 매칭 순환  [Enter] 검색 완료  [Esc] 취소"@
}

/// Status line after saving.
pub open spec fn status_saved() -> Seq<char> {
    "✅ 설정이 저장되었습니다."@
}

/// The whole state of the settings screen.
#[derive(Debug)]
pub struct App {
    /// The configuration being edited.
    pub config: StickConfig,
    /// The screen on show.
    pub current_screen: Screen,
    /// The highlighted menu entry.
    pub selected_index: usize,
    /// Whether text is being typed.
    pub input_mode: bool,
    /// The text typed so far.
    pub input_buffer: String,
    /// What the typed text is for.
    pub input_target: Option<InputTarget>,
    /// Whether the configuration is saved on leaving.
    pub should_save: bool,
    /// The status line.
    pub status_message: String,
    /// Whether a deletion waits for confirmation.
    pub confirm_delete: bool,
    /// The entry a confirmed deletion removes.
    pub delete_target_index: Option<usize>,
    /// The folder picker, while it is open.
    pub dir_picker: Option<DirPickerState>,
    /// The user's home folder (where the picker starts, and what `~` stands for).
    pub home_dir: Option<String>,
}

/// The number of entries on a screen.
pub open spec fn menu_len_spec(screen: Screen, c: StickConfig) -> nat {
    match screen {
        Screen::Main => 4,
        Screen::WatchPaths => c.watch_paths@.len(),
        Screen::ExcludeSettings => 6,
        Screen::ExcludeExtensions => c.exclude_extensions@.len(),
        Screen::ExcludeDirs => c.exclude_directories@.len(),
        Screen::LogSettings => 3,
        Screen::GeneralSettings => 4,
        Screen::DirPicker => 0,
    }
}

/// The state is well formed: outside the picker the highlight is on an
/// entry of the screen (or at the top of an empty list), and an open picker
/// is well formed.
pub open spec fn app_wf(a: App) -> bool {
    &&& (a.current_screen != Screen::DirPicker ==> a.selected_index == 0 || a.selected_index
        < menu_len_spec(a.current_screen, a.config))
    &&& (a.dir_picker matches Some(dp) ==> picker_wf(dp))
}

/// Moving the highlight up.
pub open spec fn move_up_spec(a: App) -> App {
    if a.current_screen == Screen::DirPicker {
        match a.dir_picker {
            Some(dp) => if dp.focus == DirPickerFocus::List && dp.selected_index > 0 {
                App { dir_picker: Some(DirPickerState { selected_index: (dp.selected_index - 1) as usize, ..dp }), ..a }
            } else {
                a
            },
            None => a,
        }
    } else if a.selected_index > 0 {
        App { selected_index: (a.selected_index - 1) as usize, ..a }
    } else {
        a
    }
}

/// Moving the highlight down.
pub open spec fn move_down_spec(a: App) -> App {
    if a.current_screen == Screen::DirPicker {
        match a.dir_picker {
            Some(dp) => if dp.focus == DirPickerFocus::List && dp.selected_index + 1 < dp.items@.len() {
                App { dir_picker: Some(DirPickerState { selected_index: (dp.selected_index + 1) as usize, ..dp }), ..a }
            } else {
                a
            },
            None => a,
        }
    } else if menu_len_spec(a.current_screen, a.config) > 0 && a.selected_index + 1 < menu_len_spec(a.current_screen, a.config) {
        App { selected_index: (a.selected_index + 1) as usize, ..a }
    } else {
        a
    }
}

/// Entering a screen with the highlight at the top.
pub open spec fn enter_screen(a: App, s: Screen) -> App {
    App { current_screen: s, selected_index: 0, ..a }
}

/// Enter on the main menu.
pub open spec fn select_main_spec(a: App) -> App {
    if a.selected_index == 0 {
        enter_screen(a, Screen::WatchPaths)
    } else if a.selected_index == 1 {
        enter_screen(a, Screen::ExcludeSettings)
    } else if a.selected_index == 2 {
        enter_screen(a, Screen::LogSettings)
    } else if a.selected_index == 3 {
        enter_screen(a, Screen::GeneralSettings)
    } else {
        a
    }
}

/// Enter on the exclusion settings: toggles, or the list screens.
pub open spec fn select_exclude_spec(a: App) -> App {
    let c = a.config;
    if a.selected_index == 0 {
        App { config: StickConfig { exclude_hidden: !c.exclude_hidden, ..c }, ..a }
    } else if a.selected_index == 1 {
        App { config: StickConfig { exclude_symlinks: !c.exclude_symlinks, ..c }, ..a }
    } else if a.selected_index == 2 {
        App { config: StickConfig { exclude_temp_files: !c.exclude_temp_files, ..c }, ..a }
    } else if a.selected_index == 3 {
        enter_screen(a, Screen::ExcludeExtensions)
    } else if a.selected_index == 4 {
        enter_screen(a, Screen::ExcludeDirs)
    } else if a.selected_index == 5 {
        App { config: StickConfig { confirm_before_scan: !c.confirm_before_scan, ..c }, ..a }
    } else {
        a
    }
}

/// `b` is `a` with text input started for `target`, prefilled with `prefill`.
pub open spec fn started_input(a: App, b: App, target: InputTarget, prefill: Seq<char>) -> bool {
    &&& b == App {
        input_mode: true,
        input_buffer: b.input_buffer,
        input_target: Some(target),
        status_message: b.status_message,
        ..a
    }
    &&& b.input_buffer@ == prefill
    &&& b.status_message@ == status_input()
}

/// The log level after a toggle: `info` becomes `debug`, anything else `info`.
pub open spec fn toggled_level(level: Seq<char>) -> Seq<char> {
    if level == "info"@ { "debug"@ } else { "info"@ }
}

/// Enter on the log settings.
pub open spec fn select_log_post(a: App, b: App) -> bool {
    if a.selected_index == 0 {
        started_input(a, b, InputTarget::EditLogPath, a.config.log_path@)
    } else if a.selected_index == 1 {
        &&& b == App {
            config: StickConfig { log_level: b.config.log_level, ..a.config },
            status_message: b.status_message,
            ..a
        }
        &&& b.config.log_level@ == toggled_level(a.config.log_level@)
        &&& b.status_message@ == "로그 레벨 변경: "@ + b.config.log_level@
    } else {
        b == a
    }
}

/// Enter on the general settings.
pub open spec fn select_general_post(a: App, b: App) -> bool {
    let c = a.config;
    if a.selected_index == 0 {
        b == App { config: StickConfig { recursive: !c.recursive, ..c }, ..a }
    } else if a.selected_index == 1 {
        started_input(a, b, InputTarget::EditScanInterval, decimal(c.scan_interval_seconds as nat))
    } else if a.selected_index == 2 {
        b == App { config: StickConfig { confirm_before_scan: !c.confirm_before_scan, ..c }, ..a }
    } else if a.selected_index == 3 {
        b == App { config: StickConfig { auto_start: !c.auto_start, ..c }, ..a }
    } else {
        b == a
    }
}

/// Enter on a menu screen.
pub open spec fn select_post(a: App, b: App) -> bool {
    match a.current_screen {
        Screen::Main => b == select_main_spec(a),
        Screen::ExcludeSettings => b == select_exclude_spec(a),
        Screen::LogSettings => select_log_post(a, b),
        Screen::GeneralSettings => select_general_post(a, b),
        _ => b == a,
    }
}

/// The folder a new picker starts in: the home folder, or `/`.
pub open spec fn picker_start(home: Option<String>) -> Seq<char> {
    match home {
        Some(h) => h@,
        None => "/"@,
    }
}

/// The `a` key: open the picker on the watched folders, or start typing a
/// new excluded extension (prefilled with `.`) or folder name.
/// The result names the folder whose listing the picker now needs.
pub open spec fn handle_add_post(a: App, b: App, r: Option<String>) -> bool {
    match a.current_screen {
        Screen::WatchPaths => {
            &&& b == App {
                current_screen: Screen::DirPicker,
                dir_picker: b.dir_picker,
                status_message: b.status_message,
                ..a
            }
            &&& b.status_message@ == status_picker()
            &&& b.dir_picker matches Some(dp) && dp.current_dir@ == picker_start(a.home_dir)
                && dp.parent_dir is None && dp.items@.len() == 0 && dp.selected_index == 0
                && dp.focus == DirPickerFocus::List && dp.selected_paths@.len() == 0
            &&& r matches Some(d) && d@ == picker_start(a.home_dir)
        },
        Screen::ExcludeExtensions => started_input(a, b, InputTarget::AddExcludeExtension, "."@) && r is None,
        Screen::ExcludeDirs => started_input(a, b, InputTarget::AddExcludeDir, Seq::empty()) && r is None,
        _ => b == a && r is None,
    }
}

/// The list shown on a list screen, if the screen is one.
pub open spec fn screen_list_len(a: App) -> Option<nat> {
    match a.current_screen {
        Screen::WatchPaths => Some(a.config.watch_paths@.len()),
        Screen::ExcludeExtensions => Some(a.config.exclude_extensions@.len()),
        Screen::ExcludeDirs => Some(a.config.exclude_directories@.len()),
        _ => None,
    }
}

/// The `d` key: on a non-empty list, ask to confirm deleting the highlighted entry.
pub open spec fn handle_delete_post(a: App, b: App) -> bool {
    if screen_list_len(a) matches Some(n) && n > 0 {
        &&& b == App {
            confirm_delete: true,
            delete_target_index: Some(a.selected_index),
            status_message: b.status_message,
            ..a
        }
        &&& b.status_message@ == status_confirm_delete()
    } else {
        b == a
    }
}

/// The highlight after a deletion: kept on the list if it fell off its end.
pub open spec fn clamp_index(i: usize, len: nat) -> usize {
    if len > 0 && i >= len { (len - 1) as usize } else { i }
}

/// The list of `c` that the screen edits, as texts.
pub open spec fn edited_list(c: StickConfig, s: Screen) -> Seq<Seq<char>> {
    match s {
        Screen::WatchPaths => views(c.watch_paths@),
        Screen::ExcludeExtensions => views(c.exclude_extensions@),
        Screen::ExcludeDirs => views(c.exclude_directories@),
        _ => Seq::empty(),
    }
}

/// `c2` is `c` with only the list that screen `s` edits changed.
pub open spec fn only_list_changed(c: StickConfig, c2: StickConfig, s: Screen) -> bool {
    match s {
        Screen::WatchPaths => c2 == StickConfig { watch_paths: c2.watch_paths, ..c },
        Screen::ExcludeExtensions => c2 == StickConfig { exclude_extensions: c2.exclude_extensions, ..c },
        Screen::ExcludeDirs => c2 == StickConfig { exclude_directories: c2.exclude_directories, ..c },
        _ => c2 == c,
    }
}

/// The entry `idx` removed from the list on show, when it is on it.
pub open spec fn remove_listed_post(a: App, b: App, idx: usize) -> bool {
    &&& b == App { config: b.config, status_message: b.status_message, ..a }
    &&& only_list_changed(a.config, b.config, a.current_screen)
    &&& if screen_list_len(a) matches Some(n) && idx < n {
        &&& edited_list(b.config, a.current_screen) == edited_list(a.config, a.current_screen).remove(idx as int)
        &&& b.status_message@ == "삭제됨: "@ + edited_list(a.config, a.current_screen)[idx as int]
        &&& menu_len_spec(a.current_screen, b.config) + 1 == menu_len_spec(a.current_screen, a.config)
    } else {
        b.config == a.config && b.status_message == a.status_message
    }
}

/// `y` while a deletion waits: the target entry is removed from the list on
/// show (when it is on the list), the highlight is kept on the list, and the
/// confirmation ends.
pub open spec fn confirm_delete_post(a: App, b: App) -> bool {
    &&& b == App {
        config: b.config,
        selected_index: b.selected_index,
        status_message: b.status_message,
        confirm_delete: false,
        delete_target_index: None,
        ..a
    }
    &&& only_list_changed(a.config, b.config, a.current_screen)
    &&& match a.delete_target_index {
        Some(idx) => if screen_list_len(a) matches Some(n) && idx < n {
            &&& edited_list(b.config, a.current_screen) == edited_list(a.config, a.current_screen).remove(idx as int)
            &&& b.status_message@ == "삭제됨: "@ + edited_list(a.config, a.current_screen)[idx as int]
            &&& b.selected_index == clamp_index(a.selected_index, menu_len_spec(a.current_screen, b.config))
        } else {
            &&& b.config == a.config
            &&& b.status_message == a.status_message
            &&& b.selected_index == clamp_index(a.selected_index, menu_len_spec(a.current_screen, b.config))
        },
        None => b.config == a.config && b.status_message == a.status_message && b.selected_index == a.selected_index,
    }
}

/// `Esc` while typing: the input ends and the status line returns to the
/// picker's or the menus' one.
pub open spec fn cancel_input_post(a: App, b: App) -> bool {
    &&& b == App {
        input_mode: false,
        input_buffer: b.input_buffer,
        input_target: None,
        status_message: b.status_message,
        ..a
    }
    &&& b.input_buffer@.len() == 0
    &&& b.status_message@ == if a.input_target == Some(InputTarget::DirPickerSearch) {
        status_picker()
    } else {
        status_main()
    }
}

/// `Esc` or `q` off the main menu: back to the exclusion settings from its
/// lists, else to the main menu.
pub open spec fn go_back_post(a: App, b: App) -> bool {
    &&& b == App {
        current_screen: b.current_screen,
        selected_index: b.selected_index,
        status_message: b.status_message,
        ..a
    }
    &&& b.status_message@ == status_main()
    &&& match a.current_screen {
        Screen::Main => b.current_screen == Screen::Main && b.selected_index == a.selected_index,
        Screen::ExcludeExtensions | Screen::ExcludeDirs => b.current_screen == Screen::ExcludeSettings
            && b.selected_index == 0,
        _ => b.current_screen == Screen::Main && b.selected_index == 0,
    }
}

/// Space on a settings screen: the same as Enter there.
pub open spec fn toggle_current_post(a: App, b: App) -> bool {
    match a.current_screen {
        Screen::ExcludeSettings | Screen::GeneralSettings => select_post(a, b),
        _ => b == a,
    }
}

fn remove_at(list: &mut Vec<String>, idx: usize) -> (removed: String)
    requires
        idx < old(list)@.len(),
    ensures
        views(final(list)@) == views(old(list)@).remove(idx as int),
        final(list)@.len() + 1 == old(list)@.len(),
        removed@ == views(old(list)@)[idx as int],
{
    let ghost before = list@;
    let removed = list.remove(idx);
    assert(views(list@) =~= views(before).remove(idx as int));
    removed
}

fn deleted_message(removed: &String) -> (m: String)
    ensures
        m@ == "삭제됨: "@ + removed@,
{
    let mut msg = "삭제됨: ".to_owned();
    msg.append(removed.as_str());
    msg
}

impl App {
    /// The settings screen on the main menu, editing `config`.
    pub fn new(config: StickConfig, home_dir: Option<String>) -> (a: App)
        ensures
            a.config == config,
            a.home_dir == home_dir,
            a.current_screen == Screen::Main,
            a.selected_index == 0,
            !a.input_mode,
            a.input_buffer@.len() == 0,
            a.input_target is None,
            a.should_save,
            a.status_message@ == status_main(),
            !a.confirm_delete,
            a.delete_target_index is None,
            a.dir_picker is None,
            app_wf(a),
    {
        App {
            config,
            current_screen: Screen::Main,
            selected_index: 0,
            input_mode: false,
            input_buffer: String::new(),
            input_target: None,
            should_save: true,
            status_message: "[↑↓] 이동  [Enter] 선택  [q] 저장 후 종료".to_owned(),
            confirm_delete: false,
            delete_target_index: None,
            dir_picker: None,
            home_dir,
        }
    }

    /// The number of entries on the screen on show.
    pub fn menu_len(&self) -> (n: usize)
        ensures
            n == menu_len_spec(self.current_screen, self.config),
    {
        match self.current_screen {
            Screen::Main => 4,
            Screen::WatchPaths => self.config.watch_paths.len(),
            Screen::ExcludeSettings => 6,
            Screen::ExcludeExtensions => self.config.exclude_extensions.len(),
            Screen::ExcludeDirs => self.config.exclude_directories.len(),
            Screen::LogSettings => 3,
            Screen::GeneralSettings => 4,
            Screen::DirPicker => 0,
        }
    }

    /// Moves the highlight up (in the picker: in its list, when it has the focus).
    pub fn move_up(&mut self)
        ensures
            *final(self) == move_up_spec(*old(self)),
            app_wf(*old(self)) ==> app_wf(*final(self)),
    {
        if self.current_screen == Screen::DirPicker {
            match &mut self.dir_picker {
                Some(dp) => {
                    if dp.focus == DirPickerFocus::List && dp.selected_index > 0 {
                        dp.selected_index = dp.selected_index - 1;
                    }
                },
                None => {},
            }
            return;
        }
        if self.selected_index > 0 {
            self.selected_index = self.selected_index - 1;
        }
    }

    /// Moves the highlight down, stopping at the last entry.
    pub fn move_down(&mut self)
        ensures
            *final(self) == move_down_spec(*old(self)),
            app_wf(*old(self)) ==> app_wf(*final(self)),
    {
        if self.current_screen == Screen::DirPicker {
            match &mut self.dir_picker {
                Some(dp) => {
                    if dp.focus == DirPickerFocus::List && dp.items.len() > 0 && dp.selected_index
                        < dp.items.len() - 1 {
                        dp.selected_index = dp.selected_index + 1;
                    }
                },
                None => {},
            }
            return;
        }
        let max = self.menu_len();
        if max > 0 && self.selected_index < max - 1 {
            self.selected_index = self.selected_index + 1;
        }
    }

    /// Enter on a menu screen.
    pub fn select(&mut self)
        ensures
            select_post(*old(self), *final(self)),
            app_wf(*old(self)) ==> app_wf(*final(self)),
    {
        match self.current_screen {
            Screen::Main => self.select_main_menu(),
            Screen::ExcludeSettings => self.select_exclude_menu(),
            Screen::LogSettings => self.select_log_menu(),
            Screen::GeneralSettings => self.select_general_menu(),
            _ => {},
        }
    }

    fn select_main_menu(&mut self)
        ensures
            *final(self) == select_main_spec(*old(self)),
    {
        if self.selected_index == 0 {
            self.current_screen = Screen::WatchPaths;
            self.selected_index = 0;
        } else if self.selected_index == 1 {
            self.current_screen = Screen::ExcludeSettings;
            self.selected_index = 0;
        } else if self.selected_index == 2 {
            self.current_screen = Screen::LogSettings;
            self.selected_index = 0;
        } else if self.selected_index == 3 {
            self.current_screen = Screen::GeneralSettings;
            self.selected_index = 0;
        }
    }

    fn select_exclude_menu(&mut self)
        ensures
            *final(self) == select_exclude_spec(*old(self)),
    {
        if self.selected_index == 0 {
            self.config.exclude_hidden = !self.config.exclude_hidden;
        } else if self.selected_index == 1 {
            self.config.exclude_symlinks = !self.config.exclude_symlinks;
        } else if self.selected_index == 2 {
            self.config.exclude_temp_files = !self.config.exclude_temp_files;
        } else if self.selected_index == 3 {
            self.current_screen = Screen::ExcludeExtensions;
            self.selected_index = 0;
        } else if self.selected_index == 4 {
            self.current_screen = Screen::ExcludeDirs;
            self.selected_index = 0;
        } else if self.selected_index == 5 {
            self.config.confirm_before_scan = !self.config.confirm_before_scan;
        }
    }

    fn start_input(&mut self, target: InputTarget, prefill: &str)
        ensures
            started_input(*old(self), *final(self), target, prefill@),
    {
        self.input_mode = true;
        self.input_buffer = prefill.to_owned();
        self.input_target = Some(target);
        self.status_message = "[Enter] 확인  [Esc] 취소".to_owned();
    }

    fn select_log_menu(&mut self)
        ensures
            select_log_post(*old(self), *final(self)),
    {
        if self.selected_index == 0 {
            let prefill = self.config.log_path.clone();
            self.start_input(InputTarget::EditLogPath, prefill.as_str());
        } else if self.selected_index == 1 {
            if text_eq(self.config.log_level.as_str(), "info") {
                self.config.log_level = "debug".to_owned();
            } else {
                self.config.log_level = "info".to_owned();
            }
            let mut msg = "로그 레벨 변경: ".to_owned();
            msg.append(self.config.log_level.as_str());
            self.status_message = msg;
        }
    }

    fn select_general_menu(&mut self)
        ensures
            select_general_post(*old(self), *final(self)),
    {
        if self.selected_index == 0 {
            self.config.recursive = !self.config.recursive;
        } else if self.selected_index == 1 {
            let current = decimal_string(self.config.scan_interval_seconds);
            self.start_input(InputTarget::EditScanInterval, current.as_str());
        } else if self.selected_index == 2 {
            self.config.confirm_before_scan = !self.config.confirm_before_scan;
        } else if self.selected_index == 3 {
            self.config.auto_start = !self.config.auto_start;
        }
    }

    /// The `a` key (see `handle_add_post`). When the picker opens, the result
    /// names the folder to list; pass its listing to `refresh_dir_picker`.
    pub fn handle_add(&mut self) -> (r: Option<String>)
        ensures
            handle_add_post(*old(self), *final(self), r),
            app_wf(*old(self)) ==> app_wf(*final(self)),
    {
        match self.current_screen {
            Screen::WatchPaths => {
                let start = match &self.home_dir {
                    Some(h) => h.clone(),
                    None => "/".to_owned(),
                };
                self.current_screen = Screen::DirPicker;
                self.dir_picker = Some(DirPickerState::new(start.clone()));
                self.status_message = "[↑↓] 이동  [Enter] 폴더 진입  [Space] 선택/해제  [Tab] 포커스".to_owned();
                Some(start)
            },
            Screen::ExcludeExtensions => {
                self.start_input(InputTarget::AddExcludeExtension, ".");
                None
            },
            Screen::ExcludeDirs => {
                proof {
                    reveal_strlit("");
                    assert(""@ =~= Seq::<char>::empty());
                }
                self.start_input(InputTarget::AddExcludeDir, "");
                None
            },
            _ => None,
        }
    }

    /// The `d` key (see `handle_delete_post`).
    pub fn handle_delete(&mut self)
        ensures
            handle_delete_post(*old(self), *final(self)),
            app_wf(*old(self)) ==> app_wf(*final(self)),
    {
        let has_items = match self.current_screen {
            Screen::WatchPaths => self.config.watch_paths.len() > 0,
            Screen::ExcludeExtensions => self.config.exclude_extensions.len() > 0,
            Screen::ExcludeDirs => self.config.exclude_directories.len() > 0,
            _ => false,
        };
        if has_items {
            self.confirm_delete = true;
            self.delete_target_index = Some(self.selected_index);
            self.status_message = "정말 삭제하시겠습니까? [y/n]".to_owned();
        }
    }

    #[verifier::rlimit(50)]
    fn remove_listed(&mut self, idx: usize)
        ensures
            remove_listed_post(*old(self), *final(self), idx),
    {
        match self.current_screen {
            Screen::WatchPaths => {
                if idx < self.config.watch_paths.len() {
                    let removed = remove_at(&mut self.config.watch_paths, idx);
                    self.status_message = deleted_message(&removed);
                }
            },
            Screen::ExcludeExtensions => {
                if idx < self.config.exclude_extensions.len() {
                    let removed = remove_at(&mut self.config.exclude_extensions, idx);
                    self.status_message = deleted_message(&removed);
                }
            },
            Screen::ExcludeDirs => {
                if idx < self.config.exclude_directories.len() {
                    let removed = remove_at(&mut self.config.exclude_directories, idx);
                    self.status_message = deleted_message(&removed);
                }
            },
            _ => {},
        }
    }

    /// `y` while a deletion waits (see `confirm_delete_post`).
    pub fn confirm_delete_yes(&mut self)
        ensures
            confirm_delete_post(*old(self), *final(self)),
            app_wf(*old(self)) ==> app_wf(*final(self)),
    {
        match self.delete_target_index {
            Some(idx) => {
                self.remove_listed(idx);
                let max = self.menu_len();
                if max > 0 && self.selected_index >= max {
                    self.selected_index = max - 1;
                }
            },
            None => {},
        }
        self.confirm_delete = false;
        self.delete_target_index = None;
    }

    /// `Esc` while typing (see `cancel_input_post`).
    pub fn cancel_input(&mut self)
        ensures
            cancel_input_post(*old(self), *final(self)),
            app_wf(*old(self)) ==> app_wf(*final(self)),
    {
        let was_search = match self.input_target {
            Some(InputTarget::DirPickerSearch) => true,
            _ => false,
        };
        self.input_mode = false;
        self.input_buffer = String::new();
        self.input_target = None;
        if was_search {
            self.status_message = "[↑↓] 이동  [Enter] 폴더 진입  [Space] 선택/해제  [Tab] 포커스".to_owned();
        } else {
            self.status_message = "[↑↓] 이동  [Enter] 선택  [q] 저장 후 종료".to_owned();
        }
    }

    /// Space on a settings screen (see `toggle_current_post`).
    pub fn toggle_current(&mut self)
        ensures
            toggle_current_post(*old(self), *final(self)),
            app_wf(*old(self)) ==> app_wf(*final(self)),
    {
        match self.current_screen {
            Screen::ExcludeSettings => self.select(),
            Screen::GeneralSettings => self.select(),
            _ => {},
        }
    }

    /// `Esc`, or `q` off the main menu (see `go_back_post`).
    pub fn go_back(&mut self)
        ensures
            go_back_post(*old(self), *final(self)),
            app_wf(*old(self)) ==> app_wf(*final(self)),
    {
        match self.current_screen {
            Screen::Main => {},
            Screen::ExcludeExtensions | Screen::ExcludeDirs => {
                self.current_screen = Screen::ExcludeSettings;
                self.selected_index = 0;
            },
            _ => {
                self.current_screen = Screen::Main;
                self.selected_index = 0;
            },
        }
        self.status_message = "[↑↓] 이동  [Enter] 선택  [q] 저장 후 종료".to_owned();
    }
}

// ── Text input ───────────────────────────────────────────────────────────

/// `p` with a leading `~` (alone, or before `/`) replaced by `home`, when
/// there is a home folder; otherwise `p` unchanged.
pub open spec fn tilde_spec(p: Seq<char>, home: Option<Seq<char>>) -> Seq<char> {
    if p.len() > 0 && p[0] == '~' && (p.len() == 1 || p[1] == '/') && home is Some {
        home->0 + p.drop_first()
    } else {
        p
    }
}

/// `~` followed by a backslash, which Windows builds also take as a path
/// separator after the home folder.
pub open spec fn tilde_backslash(p: Seq<char>) -> bool {
    p.len() >= 2 && p[0] == '~' && p[1] == '\\'
}

/// What the tilde expansion may give: `tilde_spec`, except that `~\` with a
/// home folder is expanded on Windows builds (and left as it is elsewhere).
pub open spec fn tilde_result(p: Seq<char>, home: Option<Seq<char>>, r: Seq<char>) -> bool {
    if tilde_backslash(p) && home is Some {
        r == p || r == home->0 + p.drop_first()
    } else {
        r == tilde_spec(p, home)
    }
}

/// `shellexpand::tilde_with_context` with the home folder given: claims
/// `tilde_result` (`~user` forms are left as they are). Whether `~\` is
/// expanded depends on the target the program was built for, so for that
/// form both outcomes are allowed and which one comes is left unsaid.
#[verifier::external_body]
fn expand_tilde(input: &str, home: Option<String>) -> (r: String)
    ensures
        tilde_result(input@, crate::path::opt_view(home), r@),
{
    shellexpand::tilde_with_context(input, || home).into_owned()
}

/// The extension typed by the user, with a leading dot added if missing.
pub open spec fn dotted(value: Seq<char>) -> Seq<char> {
    if value.len() > 0 && value[0] == '.' { value } else { seq!['.'] + value }
}

/// Message when the scan interval is zero.
pub open spec fn warn_interval_zero() -> Seq<char> {
    "⚠️  1초 이상의 값을 입력해주세요."@
}

/// Message when the scan interval is not a number.
pub open spec fn warn_interval_nan() -> Seq<char> {
    "⚠️  숫자를 입력해주세요."@
}

/// What Enter does to the configuration and the status line, for a
/// non-empty (trimmed) `value`.
pub open spec fn submit_effect(a: App, b: App, value: Seq<char>) -> bool {
    let c = a.config;
    match a.input_target {
        Some(InputTarget::AddExcludeExtension) => {
            &&& b.config == StickConfig { exclude_extensions: b.config.exclude_extensions, ..c }
            &&& views(b.config.exclude_extensions@) == views(c.exclude_extensions@).push(dotted(value))
            &&& b.status_message@ == "추가됨: "@ + dotted(value)
        },
        Some(InputTarget::AddExcludeDir) => {
            &&& b.config == StickConfig { exclude_directories: b.config.exclude_directories, ..c }
            &&& views(b.config.exclude_directories@) == views(c.exclude_directories@).push(value)
            &&& b.status_message@ == "추가됨: "@ + value
        },
        Some(InputTarget::EditLogPath) => {
            &&& b.config == StickConfig { log_path: b.config.log_path, ..c }
            &&& tilde_result(value, crate::path::opt_view(a.home_dir), b.config.log_path@)
            &&& b.status_message@ == "로그 경로 변경: "@ + b.config.log_path@
        },
        Some(InputTarget::EditScanInterval) => match parse_u64_spec(value) {
            Some(n) => if n > 0 {
                &&& b.config == StickConfig { scan_interval_seconds: n, ..c }
                &&& b.status_message@ == "스캔 간격 변경: "@ + decimal(n as nat) + "초"@
            } else {
                b.config == c && b.status_message@ == warn_interval_zero()
            },
            None => b.config == c && b.status_message@ == warn_interval_nan(),
        },
        Some(InputTarget::DirPickerSearch) => b.config == c && b.status_message@ == status_picker(),
        None => b.config == c && b.status_message == a.status_message,
    }
}

/// Enter while typing: the trimmed text is applied to its target (an empty
/// one cancels), and the input ends.
pub open spec fn submit_input_post(a: App, b: App) -> bool {
    let value = trim_spec(a.input_buffer@);
    if value.len() == 0 {
        cancel_input_post(a, b)
    } else {
        &&& b == App {
            config: b.config,
            input_mode: false,
            input_buffer: b.input_buffer,
            input_target: None,
            status_message: b.status_message,
            ..a
        }
        &&& b.input_buffer@.len() == 0
        &&& submit_effect(a, b, value)
    }
}

/// The text without its last character (unchanged when empty).
pub open spec fn without_last(s: Seq<char>) -> Seq<char> {
    if s.len() > 0 { s.drop_last() } else { s }
}

fn push_string(list: &mut Vec<String>, item: String)
    ensures
        views(final(list)@) == views(old(list)@).push(item@),
{
    let ghost before = list@;
    list.push(item);
    assert(views(list@) =~= views(before).push(item@));
}

fn with_prefix(prefix: &str, rest: &str) -> (m: String)
    ensures
        m@ == prefix@ + rest@,
{
    let mut m = prefix.to_owned();
    m.append(rest);
    m
}

proof fn lemma_submit_keeps_lists(a: App, b: App, value: Seq<char>)
    requires
        submit_effect(a, b, value),
    ensures
        b.config.watch_paths@.len() == a.config.watch_paths@.len(),
        b.config.exclude_extensions@.len() >= a.config.exclude_extensions@.len(),
        b.config.exclude_directories@.len() >= a.config.exclude_directories@.len(),
{
    assert(views(b.config.exclude_extensions@).len() == b.config.exclude_extensions@.len());
    assert(views(a.config.exclude_extensions@).len() == a.config.exclude_extensions@.len());
    assert(views(b.config.exclude_directories@).len() == b.config.exclude_directories@.len());
    assert(views(a.config.exclude_directories@).len() == a.config.exclude_directories@.len());
}

impl App {
    #[verifier::rlimit(50)]
    fn apply_input(&mut self, value: String)
        requires
            value@.len() > 0,
        ensures
            *final(self) == (App { config: final(self).config, status_message: final(self).status_message, ..*old(self) }),
            submit_effect(*old(self), *final(self), value@),
    {
        match self.input_target {
            Some(InputTarget::AddExcludeExtension) => {
                let chars = chars_of(value.as_str());
                proof {
                    reveal_strlit(".");
                    assert("."@ =~= seq!['.']);
                }
                let ext = if chars[0] == '.' { value } else { with_prefix(".", value.as_str()) };
                assert(ext@ == dotted(value@));
                let msg = with_prefix("추가됨: ", ext.as_str());
                push_string(&mut self.config.exclude_extensions, ext);
                self.status_message = msg;
            },
            Some(InputTarget::AddExcludeDir) => {
                let msg = with_prefix("추가됨: ", value.as_str());
                push_string(&mut self.config.exclude_directories, value);
                self.status_message = msg;
            },
            Some(InputTarget::EditLogPath) => {
                let home = self.home_dir.clone();
                let path = expand_tilde(value.as_str(), home);
                let msg = with_prefix("로그 경로 변경: ", path.as_str());
                self.config.log_path = path;
                self.status_message = msg;
            },
            Some(InputTarget::EditScanInterval) => {
                match parse_u64(value.as_str()) {
                    Some(seconds) => {
                        if seconds > 0 {
                            self.config.scan_interval_seconds = seconds;
                            let mut msg = "스캔 간격 변경: ".to_owned();
                            msg.append(decimal_string(seconds).as_str());
                            msg.append("초");
                            self.status_message = msg;
                        } else {
                            self.status_message = "⚠️  1초 이상의 값을 입력해주세요.".to_owned();
                        }
                    },
                    None => {
                        self.status_message = "⚠️  숫자를 입력해주세요.".to_owned();
                    },
                }
            },
            Some(InputTarget::DirPickerSearch) => {
                self.status_message = "[↑↓] 이동  [Enter] 폴더 진입  [Space] 선택/해제  [Tab] 포커스".to_owned();
            },
            None => {},
        }
    }

    /// Enter while typing (see `submit_input_post`).
    pub fn submit_input(&mut self)
        ensures
            submit_input_post(*old(self), *final(self)),
            app_wf(*old(self)) ==> app_wf(*final(self)),
    {
        let value = trim(self.input_buffer.as_str());
        if value.as_str().is_empty() {
            self.cancel_input();
            return;
        }
        let ghost before = *self;
        self.apply_input(value);
        proof {
            lemma_submit_keeps_lists(before, *self, value@);
        }
        self.input_mode = false;
        self.input_buffer = String::new();
        self.input_target = None;
    }

    /// A typed character is added to the input.
    pub fn input_push(&mut self, c: char)
        ensures
            *final(self) == (App { input_buffer: final(self).input_buffer, ..*old(self) }),
            final(self).input_buffer@ == old(self).input_buffer@.push(c),
    {
        push_char(&mut self.input_buffer, c);
    }

    /// Backspace removes the last typed character, if any.
    pub fn input_pop(&mut self)
        ensures
            *final(self) == (App { input_buffer: final(self).input_buffer, ..*old(self) }),
            final(self).input_buffer@ == without_last(old(self).input_buffer@),
    {
        let _ = pop_char(&mut self.input_buffer);
    }
}

// ── Folder picker actions ────────────────────────────────────────────────

/// `s` without the entries equal to `x`.
pub open spec fn without(s: Seq<Seq<char>>, x: Seq<char>) -> Seq<Seq<char>>
    decreases s.len(),
{
    if s.len() == 0 {
        Seq::empty()
    } else if s.last() == x {
        without(s.drop_last(), x)
    } else {
        without(s.drop_last(), x).push(s.last())
    }
}

/// The ticked folders after Space on `path`: untick it if ticked, else tick it.
pub open spec fn toggled_selection(sel: Seq<Seq<char>>, path: Seq<char>) -> Seq<Seq<char>> {
    if sel.contains(path) { without(sel, path) } else { sel.push(path) }
}

/// Space in the picker: the highlighted folder is ticked or unticked (the
/// parent entry cannot be ticked).
pub open spec fn toggle_selection_post(a: App, b: App) -> bool {
    match a.dir_picker {
        Some(dp) => if dp.focus == DirPickerFocus::List && dp.selected_index < dp.items@.len()
            && crate::path::opt_view(dp.parent_dir) != Some(dp.items@[dp.selected_index as int]@) {
            &&& b == App { dir_picker: b.dir_picker, ..a }
            &&& b.dir_picker matches Some(ndp)
            &&& ndp == DirPickerState { selected_paths: ndp.selected_paths, ..dp }
            &&& views(ndp.selected_paths@) == toggled_selection(
                views(dp.selected_paths@),
                dp.items@[dp.selected_index as int]@,
            )
        } else {
            b == a
        },
        None => b == a,
    }
}

proof fn lemma_without(s: Seq<Seq<char>>, x: Seq<char>)
    ensures
        !without(s, x).contains(x),
        forall|y: Seq<char>| y != x && s.contains(y) ==> #[trigger] without(s, x).contains(y),
        forall|y: Seq<char>| #[trigger] without(s, x).contains(y) ==> s.contains(y),
        s.no_duplicates() ==> without(s, x).no_duplicates(),
    decreases s.len(),
{
    if s.len() > 0 {
        let t = s.drop_last();
        lemma_without(t, x);
        assert forall|y: Seq<char>| y != x && s.contains(y) implies #[trigger] without(s, x).contains(y) by {
            let k = choose|k: int| 0 <= k < s.len() && s[k] == y;
            let w = without(t, x);
            if k < s.len() - 1 {
                assert(t[k] == y);
                assert(t.contains(y));
                assert(w.contains(y));
                let j = choose|j: int| 0 <= j < w.len() && w[j] == y;
                if s.last() != x {
                    assert(w.push(s.last())[j] == y);
                }
            } else {
                assert(without(s, x).last() == y);
            }
        }
        assert forall|y: Seq<char>| #[trigger] without(s, x).contains(y) implies s.contains(y) by {
            let w = without(s, x);
            let k = choose|k: int| 0 <= k < w.len() && w[k] == y;
            if s.last() != x && k == w.len() - 1 {
                assert(s[s.len() - 1] == y);
            } else {
                assert(without(t, x)[k] == y);
                assert(w == without(t, x) || w == without(t, x).push(s.last()));
                assert(without(t, x).contains(y));
                let j = choose|j: int| 0 <= j < t.len() && t[j] == y;
                assert(t[j] == s[j]);
                assert(s[j] == y);
            }
        }
        if s.no_duplicates() {
            assert(t.no_duplicates()) by {
                assert forall|i: int, j: int| 0 <= i < t.len() && 0 <= j < t.len() && i != j implies t[i] != t[j] by {
                    assert(t[i] == s[i] && t[j] == s[j]);
                }
            }
            if s.last() != x {
                let w = without(t, x);
                assert(!w.contains(s.last())) by {
                    if w.contains(s.last()) {
                        assert(t.contains(s.last()));
                        let j = choose|j: int| 0 <= j < t.len() && t[j] == s.last();
                        assert(s[j] == s[s.len() - 1]);
                    }
                }
                assert forall|i: int, j: int| 0 <= i < w.push(s.last()).len() && 0 <= j < w.push(s.last()).len() && i != j
                    implies w.push(s.last())[i] != w.push(s.last())[j] by {
                    if i < w.len() && j < w.len() {
                    } else if i < w.len() {
                        assert(w.contains(w[i]));
                    } else {
                        assert(w.contains(w[j]));
                    }
                }
            }
        }
    }
}

fn without_exec(s: &Vec<String>, x: &String) -> (r: Vec<String>)
    ensures
        views(r@) == without(views(s@), x@),
{
    let mut r: Vec<String> = Vec::new();
    let mut i: usize = 0;
    assert(views(s@).subrange(0, 0) == Seq::<Seq<char>>::empty());
    assert(views(r@) =~= Seq::<Seq<char>>::empty());
    while i < s.len()
        invariant
            i <= s@.len(),
            views(r@) == without(views(s@).subrange(0, i as int), x@),
        decreases s@.len() - i,
    {
        let ghost pre = views(s@).subrange(0, i + 1);
        assert(pre.drop_last() == views(s@).subrange(0, i as int));
        assert(pre.last() == s@[i as int]@);
        if !(s[i] == *x) {
            let c = s[i].clone();
            push_string(&mut r, c);
        }
        i = i + 1;
    }
    assert(views(s@).subrange(0, s@.len() as int) == views(s@));
    r
}

pub(crate) fn contains_string(s: &Vec<String>, x: &String) -> (b: bool)
    ensures
        b == views(s@).contains(x@),
{
    let mut i: usize = 0;
    while i < s.len()
        invariant
            i <= s@.len(),
            forall|k: int| 0 <= k < i ==> views(s@)[k] != x@,
        decreases s@.len() - i,
    {
        if s[i] == *x {
            assert(views(s@)[i as int] == x@);
            return true;
        }
        i = i + 1;
    }
    false
}

/// The watched folders after confirming the picker: each ticked folder not
/// already watched is added at the end, in ticking order.
pub open spec fn add_new_paths(ws: Seq<Seq<char>>, sel: Seq<Seq<char>>) -> Seq<Seq<char>>
    decreases sel.len(),
{
    if sel.len() == 0 {
        ws
    } else {
        let w = add_new_paths(ws, sel.drop_last());
        if w.contains(sel.last()) { w } else { w.push(sel.last()) }
    }
}

/// Message after confirming the picker.
pub open spec fn added_message(n: nat) -> Seq<char> {
    decimal(n) + "개의 감시 폴더가 추가되었습니다."@
}

/// Message after cancelling the picker.
pub open spec fn cancelled_message() -> Seq<char> {
    "폴더 추가가 취소되었습니다."@
}

/// Enter in the picker: on the list, open the highlighted folder (the
/// result names it; its listing is then needed); on confirm, add the ticked
/// folders to the watched ones and close; on cancel, close.
pub open spec fn select_dir_picker_post(a: App, b: App, r: Option<String>) -> bool {
    match a.dir_picker {
        None => b == a && r is None,
        Some(dp) => match dp.focus {
            DirPickerFocus::List => if dp.selected_index < dp.items@.len() {
                &&& b == App { dir_picker: b.dir_picker, ..a }
                &&& b.dir_picker matches Some(ndp)
                &&& ndp == DirPickerState {
                    current_dir: ndp.current_dir,
                    parent_dir: None,
                    items: ndp.items,
                    selected_index: 0,
                    ..dp
                }
                &&& ndp.current_dir@ == dp.items@[dp.selected_index as int]@
                &&& ndp.items@.len() == 0
                &&& r matches Some(d) && d@ == ndp.current_dir@
            } else {
                b == a && r is None
            },
            DirPickerFocus::Confirm => {
                &&& b == App {
                    config: b.config,
                    current_screen: Screen::WatchPaths,
                    selected_index: 0,
                    status_message: b.status_message,
                    dir_picker: None,
                    ..a
                }
                &&& b.config == StickConfig { watch_paths: b.config.watch_paths, ..a.config }
                &&& views(b.config.watch_paths@) == add_new_paths(views(a.config.watch_paths@), views(dp.selected_paths@))
                &&& b.status_message@ == added_message((b.config.watch_paths@.len() - a.config.watch_paths@.len()) as nat)
                &&& r is None
            },
            DirPickerFocus::Cancel => {
                &&& b == App {
                    current_screen: Screen::WatchPaths,
                    selected_index: 0,
                    status_message: b.status_message,
                    dir_picker: None,
                    ..a
                }
                &&& b.status_message@ == cancelled_message()
                &&& r is None
            },
        },
    }
}

/// Confirming the picker keeps the watched folders as they were at the
/// front, adds every ticked folder, and never lists a folder twice.
pub proof fn lemma_add_new_paths(ws: Seq<Seq<char>>, sel: Seq<Seq<char>>)
    ensures
        add_new_paths(ws, sel).len() >= ws.len(),
        add_new_paths(ws, sel).subrange(0, ws.len() as int) == ws,
        forall|x: Seq<char>| sel.contains(x) ==> #[trigger] add_new_paths(ws, sel).contains(x),
        forall|x: Seq<char>| #[trigger] add_new_paths(ws, sel).contains(x) ==> ws.contains(x) || sel.contains(x),
        ws.no_duplicates() ==> add_new_paths(ws, sel).no_duplicates(),
    decreases sel.len(),
{
    if sel.len() > 0 {
        let s1 = sel.drop_last();
        let w = add_new_paths(ws, s1);
        lemma_add_new_paths(ws, s1);
        let r = add_new_paths(ws, sel);
        assert(r.subrange(0, ws.len() as int) =~= ws) by {
            assert forall|i: int| 0 <= i < ws.len() implies r[i] == ws[i] by {
                assert(w.subrange(0, ws.len() as int)[i] == ws[i]);
            }
        }
        assert forall|x: Seq<char>| sel.contains(x) implies #[trigger] r.contains(x) by {
            let k = choose|k: int| 0 <= k < sel.len() && sel[k] == x;
            if k < sel.len() - 1 {
                assert(s1[k] == x);
                assert(w.contains(x));
                let j = choose|j: int| 0 <= j < w.len() && w[j] == x;
                assert(r[j] == x);
            } else if !w.contains(x) {
                assert(r[r.len() - 1] == x);
            }
        }
        assert forall|x: Seq<char>| #[trigger] r.contains(x) implies ws.contains(x) || sel.contains(x) by {
            let j = choose|j: int| 0 <= j < r.len() && r[j] == x;
            if j < w.len() {
                assert(w[j] == x);
                assert(w.contains(x));
                if s1.contains(x) {
                    let k = choose|k: int| 0 <= k < s1.len() && s1[k] == x;
                    assert(sel[k] == x);
                }
            } else {
                assert(sel[sel.len() - 1] == x);
            }
        }
        if ws.no_duplicates() && !w.contains(sel.last()) {
            assert forall|i: int, j: int| 0 <= i < r.len() && 0 <= j < r.len() && i != j implies r[i] != r[j] by {
                if i < w.len() && j < w.len() {
                } else if i < w.len() {
                    assert(w.contains(w[i]));
                } else {
                    assert(w.contains(w[j]));
                }
            }
        }
    }
}

/// Tab in the picker: the focus moves list → confirm → cancel → list.
pub open spec fn next_focus(f: DirPickerFocus) -> DirPickerFocus {
    match f {
        DirPickerFocus::List => DirPickerFocus::Confirm,
        DirPickerFocus::Confirm => DirPickerFocus::Cancel,
        DirPickerFocus::Cancel => DirPickerFocus::List,
    }
}

impl App {
    /// Space in the picker (see `toggle_selection_post`).
    pub fn toggle_dir_picker_selection(&mut self)
        ensures
            toggle_selection_post(*old(self), *final(self)),
            app_wf(*old(self)) ==> app_wf(*final(self)),
    {
        match &mut self.dir_picker {
            Some(dp) => {
                if dp.focus == DirPickerFocus::List && dp.selected_index < dp.items.len() {
                    let path = dp.items[dp.selected_index].clone();
                    let is_parent = match &dp.parent_dir {
                        Some(p) => *p == path,
                        None => false,
                    };
                    if is_parent {
                        return;
                    }
                    let ghost old_sel = views(dp.selected_paths@);
                    if contains_string(&dp.selected_paths, &path) {
                        let kept = without_exec(&dp.selected_paths, &path);
                        proof {
                            lemma_without(old_sel, path@);
                        }
                        dp.selected_paths = kept;
                    } else {
                        push_string(&mut dp.selected_paths, path);
                        proof {
                            if old_sel.no_duplicates() {
                                assert(views(dp.selected_paths@).no_duplicates()) by {
                                    let n = views(dp.selected_paths@);
                                    assert forall|i: int, j: int| 0 <= i < n.len() && 0 <= j < n.len() && i != j implies n[i] != n[j] by {
                                        if i < old_sel.len() && j < old_sel.len() {
                                            assert(n[i] == old_sel[i] && n[j] == old_sel[j]);
                                        } else if i < old_sel.len() {
                                            assert(n[i] == old_sel[i]);
                                            assert(old_sel.contains(old_sel[i]));
                                        } else {
                                            assert(n[j] == old_sel[j]);
                                            assert(old_sel.contains(old_sel[j]));
                                        }
                                    }
                                }
                            }
                        }
                    }
                }
            },
            None => {},
        }
    }

    /// Tab in the picker: the focus moves on (see `next_focus`).
    pub fn cycle_dir_picker_focus(&mut self)
        ensures
            match old(self).dir_picker {
                Some(dp) => *final(self) == (App {
                    dir_picker: Some(DirPickerState { focus: next_focus(dp.focus), ..dp }),
                    ..*old(self)
                }),
                None => *final(self) == *old(self),
            },
            app_wf(*old(self)) ==> app_wf(*final(self)),
    {
        match &mut self.dir_picker {
            Some(dp) => {
                dp.focus = match dp.focus {
                    DirPickerFocus::List => DirPickerFocus::Confirm,
                    DirPickerFocus::Confirm => DirPickerFocus::Cancel,
                    DirPickerFocus::Cancel => DirPickerFocus::List,
                };
            },
            None => {},
        }
    }

    /// Gives the open picker the listing of its folder (see
    /// `DirPickerState::refresh_items`).
    pub fn refresh_dir_picker(&mut self, parent: Option<String>, subdirs: Vec<String>)
        ensures
            match old(self).dir_picker {
                Some(dp) => {
                    &&& *final(self) == (App { dir_picker: final(self).dir_picker, ..*old(self) })
                    &&& final(self).dir_picker matches Some(ndp)
                    &&& ndp == (DirPickerState { items: ndp.items, selected_index: 0, parent_dir: parent, ..dp })
                    &&& views(ndp.items@) == listing(crate::path::opt_view(parent), views(subdirs@))
                },
                None => *final(self) == *old(self),
            },
            app_wf(*old(self)) ==> app_wf(*final(self)),
    {
        match &mut self.dir_picker {
            Some(dp) => {
                dp.refresh_items(parent, subdirs);
            },
            None => {},
        }
    }

    #[verifier::rlimit(50)]
    fn add_ticked(&mut self, ticked: &Vec<String>) -> (added: usize)
        ensures
            *final(self) == (App { config: final(self).config, ..*old(self) }),
            final(self).config == (StickConfig { watch_paths: final(self).config.watch_paths, ..old(self).config }),
            views(final(self).config.watch_paths@) == add_new_paths(views(old(self).config.watch_paths@), views(ticked@)),
            added == final(self).config.watch_paths@.len() - old(self).config.watch_paths@.len(),
    {
        let before: usize = self.config.watch_paths.len();
        let ghost ws0 = views(self.config.watch_paths@);
        let mut k: usize = 0;
        assert(views(ticked@).subrange(0, 0) == Seq::<Seq<char>>::empty());
        while k < ticked.len()
            invariant
                k <= ticked@.len(),
                before == ws0.len(),
                ws0 == views(old(self).config.watch_paths@),
                views(self.config.watch_paths@) == add_new_paths(ws0, views(ticked@).subrange(0, k as int)),
                *self == (App { config: self.config, ..*old(self) }),
                self.config == (StickConfig { watch_paths: self.config.watch_paths, ..old(self).config }),
            decreases ticked@.len() - k,
        {
            let ghost pre = views(ticked@).subrange(0, k + 1);
            assert(pre.drop_last() == views(ticked@).subrange(0, k as int));
            assert(pre.last() == ticked@[k as int]@);
            let path = &ticked[k];
            if !contains_string(&self.config.watch_paths, path) {
                push_string(&mut self.config.watch_paths, path.clone());
            }
            k = k + 1;
        }
        assert(views(ticked@).subrange(0, ticked@.len() as int) == views(ticked@));
        proof {
            lemma_add_new_paths(ws0, views(ticked@));
            assert(views(self.config.watch_paths@).len() == self.config.watch_paths@.len());
        }
        self.config.watch_paths.len() - before
    }

    fn open_highlighted(&mut self) -> (r: Option<String>)
        requires
            old(self).dir_picker is Some,
            old(self).dir_picker->0.focus == DirPickerFocus::List,
        ensures
            select_dir_picker_post(*old(self), *final(self), r),
    {
        match &mut self.dir_picker {
            Some(dp) => {
                if dp.selected_index < dp.items.len() {
                    let target = dp.items[dp.selected_index].clone();
                    dp.current_dir = target.clone();
                    dp.parent_dir = None;
                    dp.items = Vec::new();
                    dp.selected_index = 0;
                    Some(target)
                } else {
                    None
                }
            },
            None => None,
        }
    }

    /// Enter in the picker (see `select_dir_picker_post`).
    pub fn select_dir_picker(&mut self) -> (r: Option<String>)
        ensures
            select_dir_picker_post(*old(self), *final(self), r),
            app_wf(*old(self)) ==> app_wf(*final(self)),
    {
        let focus = match &self.dir_picker {
            Some(dp) => dp.focus,
            None => {
                return None;
            },
        };
        match focus {
            DirPickerFocus::List => self.open_highlighted(),
            DirPickerFocus::Confirm => {
                let taken = self.dir_picker.take();
                match taken {
                    Some(dp) => {
                        let added = self.add_ticked(&dp.selected_paths);
                        let mut msg = decimal_string(added as u64);
                        msg.append("개의 감시 폴더가 추가되었습니다.");
                        self.status_message = msg;
                    },
                    None => {},
                }
                self.current_screen = Screen::WatchPaths;
                self.selected_index = 0;
                None
            },
            DirPickerFocus::Cancel => {
                self.dir_picker = None;
                self.status_message = "폴더 추가가 취소되었습니다.".to_owned();
                self.current_screen = Screen::WatchPaths;
                self.selected_index = 0;
                None
            },
        }
    }

    /// Starts a search in the picker (see `start_search_post`).
    pub fn start_dir_picker_search(&mut self)
        ensures
            start_search_post(*old(self), *final(self)),
            app_wf(*old(self)) ==> app_wf(*final(self)),
    {
        self.input_mode = true;
        self.input_buffer = String::new();
        self.input_target = Some(InputTarget::DirPickerSearch);
        self.status_message = "[↑/↓] 매칭 순환  [Enter] 검색 완료  [Esc] 취소".to_owned();
    }
}

// ── Searching the picker ─────────────────────────────────────────────────

/// How a listed folder matches a (lower-case) query: 0 its lower-case name
/// equals it, 1 starts with it, 2 contains it, 3 none of these (or no name).
pub open spec fn match_class(item: Seq<char>, q: Seq<char>) -> nat {
    match file_name_of(item) {
        None => 3,
        Some(n) => {
            let l = lowercase_of(n);
            if l == q {
                0
            } else if crate::text::has_prefix(l, q) {
                1
            } else if crate::text::has_infix(l, q) {
                2
            } else {
                3
            }
        },
    }
}

/// The positions of the listed folders in a match class, in list order.
pub open spec fn class_indices(items: Seq<Seq<char>>, q: Seq<char>, cls: nat) -> Seq<usize>
    decreases items.len(),
{
    if items.len() == 0 {
        Seq::empty()
    } else if match_class(items.last(), q) == cls {
        class_indices(items.drop_last(), q, cls).push((items.len() - 1) as usize)
    } else {
        class_indices(items.drop_last(), q, cls)
    }
}

/// The folders matching the typed text: exact names first, then names that
/// start with it, then names that contain it; none for an empty text.
pub open spec fn matching_indices_spec(items: Seq<Seq<char>>, typed: Seq<char>) -> Seq<usize> {
    let q = lowercase_of(typed);
    if q.len() == 0 {
        Seq::empty()
    } else {
        class_indices(items, q, 0) + class_indices(items, q, 1) + class_indices(items, q, 2)
    }
}

/// The matches of the app's current search.
pub open spec fn app_matches(a: App) -> Seq<usize> {
    match a.dir_picker {
        Some(dp) => matching_indices_spec(views(dp.items@), a.input_buffer@),
        None => Seq::empty(),
    }
}

/// The first position of `x` in `m`, or -1.
pub open spec fn first_pos(m: Seq<usize>, x: usize) -> int
    decreases m.len(),
{
    if m.len() == 0 {
        -1
    } else if m[0] == x {
        0
    } else if first_pos(m.drop_first(), x) < 0 {
        -1
    } else {
        first_pos(m.drop_first(), x) + 1
    }
}

/// The match after `cur` (cycling), or the first match when `cur` is none.
pub open spec fn next_match(m: Seq<usize>, cur: usize) -> usize {
    let p = first_pos(m, cur);
    if p >= 0 { m[(p + 1) % (m.len() as int)] } else { m[0] }
}

/// The match before `cur` (cycling), or the last match when `cur` is none.
pub open spec fn prev_match(m: Seq<usize>, cur: usize) -> usize {
    let p = first_pos(m, cur);
    if p > 0 { m[p - 1] } else { m[m.len() - 1] }
}

/// The picker highlight moved to `idx`.
pub open spec fn with_highlight(a: App, idx: usize) -> App {
    match a.dir_picker {
        Some(dp) => App { dir_picker: Some(DirPickerState { selected_index: idx, ..dp }), ..a },
        None => a,
    }
}

/// The highlight on the first match of the search, if there is one.
pub open spec fn search_first_spec(a: App) -> App {
    if app_matches(a).len() > 0 { with_highlight(a, app_matches(a)[0]) } else { a }
}

/// The highlight on the next match of the search, cycling.
pub open spec fn search_next_spec(a: App) -> App {
    match a.dir_picker {
        Some(dp) => if app_matches(a).len() > 0 {
            with_highlight(a, next_match(app_matches(a), dp.selected_index))
        } else {
            a
        },
        None => a,
    }
}

/// The highlight on the previous match of the search, cycling.
pub open spec fn search_prev_spec(a: App) -> App {
    match a.dir_picker {
        Some(dp) => if app_matches(a).len() > 0 {
            with_highlight(a, prev_match(app_matches(a), dp.selected_index))
        } else {
            a
        },
        None => a,
    }
}

/// A search in the picker has started: an empty text is being typed for it.
pub open spec fn start_search_post(a: App, b: App) -> bool {
    &&& b == (App {
        input_mode: true,
        input_buffer: b.input_buffer,
        input_target: Some(InputTarget::DirPickerSearch),
        status_message: b.status_message,
        ..a
    })
    &&& b.input_buffer@.len() == 0
    &&& b.status_message@ == status_search()
}

/// The search text became `typed`, and the highlight went to its first match.
pub open spec fn retyped_search(a: App, b: App, typed: Seq<char>) -> bool {
    let mid = App { dir_picker: a.dir_picker, ..b };
    &&& mid == (App { input_buffer: mid.input_buffer, ..a })
    &&& mid.input_buffer@ == typed
    &&& b == search_first_spec(mid)
}

proof fn lemma_class_indices(items: Seq<Seq<char>>, q: Seq<char>, cls: nat)
    requires
        items.len() <= usize::MAX,
    ensures
        forall|i: int| 0 <= i < class_indices(items, q, cls).len() ==> {
            &&& #[trigger] class_indices(items, q, cls)[i] < items.len()
            &&& match_class(items[class_indices(items, q, cls)[i] as int], q) == cls
        },
        forall|i: int, j: int| 0 <= i < j < class_indices(items, q, cls).len() ==>
            #[trigger] class_indices(items, q, cls)[i] < #[trigger] class_indices(items, q, cls)[j],
    decreases items.len(),
{
    if items.len() > 0 {
        let t = items.drop_last();
        lemma_class_indices(t, q, cls);
        let r = class_indices(items, q, cls);
        let rt = class_indices(t, q, cls);
        assert forall|i: int| 0 <= i < r.len() implies {
            &&& #[trigger] r[i] < items.len()
            &&& match_class(items[r[i] as int], q) == cls
        } by {
            if i < rt.len() {
                assert(r[i] == rt[i]);
                assert(items[rt[i] as int] == t[rt[i] as int]);
            } else {
                assert(r[i] as int == items.len() - 1);
            }
        }
        assert forall|i: int, j: int| 0 <= i < j < r.len() implies #[trigger] r[i] < #[trigger] r[j] by {
            assert(r[i] == rt[i]);
            if j < rt.len() {
                assert(r[j] == rt[j]);
            } else {
                assert(r[j] as int == items.len() - 1);
            }
        }
    }
}

proof fn lemma_matches_distinct(items: Seq<Seq<char>>, typed: Seq<char>)
    requires
        items.len() <= usize::MAX,
    ensures
        matching_indices_spec(items, typed).no_duplicates(),
        forall|i: int| 0 <= i < matching_indices_spec(items, typed).len() ==>
            #[trigger] matching_indices_spec(items, typed)[i] < items.len(),
{
    let q = lowercase_of(typed);
    if q.len() > 0 {
        lemma_class_indices(items, q, 0);
        lemma_class_indices(items, q, 1);
        lemma_class_indices(items, q, 2);
        let c0 = class_indices(items, q, 0);
        let c1 = class_indices(items, q, 1);
        let c2 = class_indices(items, q, 2);
        let m = c0 + c1 + c2;
        assert forall|i: int| 0 <= i < m.len() implies #[trigger] m[i] < items.len() && match_class(items[m[i] as int], q) == (
            if i < c0.len() { 0nat } else if i < c0.len() + c1.len() { 1nat } else { 2nat }
        ) by {
            if i < c0.len() {
                assert(m[i] == c0[i]);
            } else if i < c0.len() + c1.len() {
                assert(m[i] == c1[i - c0.len()]);
            } else {
                assert(m[i] == c2[i - c0.len() - c1.len()]);
            }
        }
        assert forall|i: int, j: int| 0 <= i < m.len() && 0 <= j < m.len() && i != j implies m[i] != m[j] by {
            let ci: nat = if i < c0.len() { 0nat } else if i < c0.len() + c1.len() { 1nat } else { 2nat };
            let cj: nat = if j < c0.len() { 0nat } else if j < c0.len() + c1.len() { 1nat } else { 2nat };
            assert(match_class(items[m[i] as int], q) == ci);
            assert(match_class(items[m[j] as int], q) == cj);
            if ci == cj {
                if i < c0.len() && j < c0.len() {
                    assert(m[i] == c0[i] && m[j] == c0[j]);
                    if i < j { assert(c0[i] < c0[j]); } else { assert(c0[j] < c0[i]); }
                } else if ci == 1 {
                    assert(m[i] == c1[i - c0.len()] && m[j] == c1[j - c0.len()]);
                    if i < j { assert(c1[i - c0.len()] < c1[j - c0.len()]); } else { assert(c1[j - c0.len()] < c1[i - c0.len()]); }
                } else {
                    assert(m[i] == c2[i - c0.len() - c1.len()] && m[j] == c2[j - c0.len() - c1.len()]);
                    if i < j {
                        assert(c2[i - c0.len() - c1.len()] < c2[j - c0.len() - c1.len()]);
                    } else {
                        assert(c2[j - c0.len() - c1.len()] < c2[i - c0.len() - c1.len()]);
                    }
                }
            }
        }
    }
}

proof fn lemma_first_pos_found(m: Seq<usize>, x: usize, i: int)
    requires
        0 <= i < m.len(),
        m[i] == x,
        forall|k: int| 0 <= k < i ==> m[k] != x,
    ensures
        first_pos(m, x) == i,
    decreases i,
{
    if i > 0 {
        assert forall|k: int| 0 <= k < i - 1 implies m.drop_first()[k] != x by {
            assert(m.drop_first()[k] == m[k + 1]);
        }
        lemma_first_pos_found(m.drop_first(), x, i - 1);
    }
}

proof fn lemma_first_pos_absent(m: Seq<usize>, x: usize)
    requires
        forall|k: int| 0 <= k < m.len() ==> m[k] != x,
    ensures
        first_pos(m, x) == -1,
    decreases m.len(),
{
    if m.len() > 0 {
        assert forall|k: int| 0 <= k < m.drop_first().len() implies m.drop_first()[k] != x by {
            assert(m.drop_first()[k] == m[k + 1]);
        }
        lemma_first_pos_absent(m.drop_first(), x);
    }
}

proof fn lemma_first_pos_distinct(m: Seq<usize>, i: int)
    requires
        m.no_duplicates(),
        0 <= i < m.len(),
    ensures
        first_pos(m, m[i]) == i,
{
    lemma_first_pos_found(m, m[i], i);
}

/// Searching forward then backward returns to the folder the search was
/// on, whenever that folder is a match.
pub proof fn lemma_search_next_then_prev(items: Seq<Seq<char>>, typed: Seq<char>, cur: usize)
    requires
        items.len() <= usize::MAX,
        matching_indices_spec(items, typed).contains(cur),
    ensures
        prev_match(
            matching_indices_spec(items, typed),
            next_match(matching_indices_spec(items, typed), cur),
        ) == cur,
{
    let m = matching_indices_spec(items, typed);
    lemma_matches_distinct(items, typed);
    let p = choose|p: int| 0 <= p < m.len() && m[p] == cur;
    lemma_first_pos_distinct(m, p);
    let q = (p + 1) % (m.len() as int);
    lemma_first_pos_distinct(m, q);
    if p + 1 < m.len() {
        vstd::arithmetic::div_mod::lemma_small_mod((p + 1) as nat, m.len());
        assert(q == p + 1);
    } else {
        vstd::arithmetic::div_mod::lemma_mod_self_0(m.len() as int);
        assert(q == 0);
    }
}

/// On the screen: moving to the next match and then to the previous one
/// (or the other way round) puts the highlight back where it was, whenever
/// it was on a match; nothing else changes.
pub proof fn lemma_app_search_next_prev(a: App)
    requires
        a.dir_picker is Some,
        app_matches(a).contains(a.dir_picker->0.selected_index),
        views(a.dir_picker->0.items@).len() <= usize::MAX,
    ensures
        search_prev_spec(search_next_spec(a)) == a,
        search_next_spec(search_prev_spec(a)) == a,
{
    let dp = a.dir_picker->0;
    let s = dp.selected_index;
    let m = app_matches(a);
    lemma_search_next_then_prev(views(dp.items@), a.input_buffer@, s);
    lemma_search_prev_then_next(views(dp.items@), a.input_buffer@, s);
    let b = search_next_spec(a);
    assert(app_matches(b) == m);
    assert(search_prev_spec(b) == with_highlight(b, s));
    assert(DirPickerState { selected_index: s, ..dp } == dp);
    let c = search_prev_spec(a);
    assert(app_matches(c) == m);
}

/// Searching backward then forward returns to the folder the search was
/// on, whenever that folder is a match.
pub proof fn lemma_search_prev_then_next(items: Seq<Seq<char>>, typed: Seq<char>, cur: usize)
    requires
        items.len() <= usize::MAX,
        matching_indices_spec(items, typed).contains(cur),
    ensures
        next_match(
            matching_indices_spec(items, typed),
            prev_match(matching_indices_spec(items, typed), cur),
        ) == cur,
{
    let m = matching_indices_spec(items, typed);
    lemma_matches_distinct(items, typed);
    let p = choose|p: int| 0 <= p < m.len() && m[p] == cur;
    lemma_first_pos_distinct(m, p);
    let q = if p > 0 { p - 1 } else { m.len() - 1 };
    lemma_first_pos_distinct(m, q);
    if p > 0 {
        vstd::arithmetic::div_mod::lemma_small_mod((q + 1) as nat, m.len());
        assert((q + 1) % (m.len() as int) == p);
    } else {
        vstd::arithmetic::div_mod::lemma_mod_self_0(m.len() as int);
        assert((q + 1) % (m.len() as int) == 0);
    }
}

fn lower_name(item: &String) -> (r: Option<Vec<char>>)
    ensures
        match r {
            Some(l) => file_name_of(item@) matches Some(n) && l@ == lowercase_of(n),
            None => file_name_of(item@) is None,
        },
{
    match file_name(item.as_str()) {
        Some(n) => {
            let low = to_lowercase(n.as_str());
            Some(chars_of(low.as_str()))
        },
        None => None,
    }
}

fn class_of(item: &String, q: &Vec<char>) -> (c: u8)
    ensures
        c as nat == match_class(item@, q@),
{
    match lower_name(item) {
        Some(l) => {
            if crate::text::chars_equal(&l, q) {
                0
            } else if crate::text::starts_with_chars(&l, q) {
                1
            } else if crate::text::contains_chars(&l, q) {
                2
            } else {
                3
            }
        },
        None => 3,
    }
}

fn push_class(items: &Vec<String>, q: &Vec<char>, cls: u8, out: &mut Vec<usize>)
    ensures
        final(out)@ == old(out)@ + class_indices(views(items@), q@, cls as nat),
{
    let ghost start = out@;
    let mut i: usize = 0;
    assert(views(items@).subrange(0, 0) == Seq::<Seq<char>>::empty());
    assert(start + Seq::<usize>::empty() == start);
    while i < items.len()
        invariant
            i <= items@.len(),
            out@ == start + class_indices(views(items@).subrange(0, i as int), q@, cls as nat),
        decreases items@.len() - i,
    {
        let ghost pre = views(items@).subrange(0, i + 1);
        assert(pre.drop_last() == views(items@).subrange(0, i as int));
        assert(pre.last() == items@[i as int]@);
        if class_of(&items[i], q) == cls {
            out.push(i);
            assert(out@ =~= start + class_indices(pre, q@, cls as nat));
        }
        i = i + 1;
    }
    assert(views(items@).subrange(0, items@.len() as int) == views(items@));
}

fn find_pos(m: &Vec<usize>, x: usize) -> (r: Option<usize>)
    ensures
        match r {
            Some(p) => first_pos(m@, x) == p as int && p < m@.len(),
            None => first_pos(m@, x) == -1,
        },
{
    let mut i: usize = 0;
    while i < m.len()
        invariant
            i <= m@.len(),
            forall|k: int| 0 <= k < i ==> m@[k] != x,
        decreases m@.len() - i,
    {
        if m[i] == x {
            proof {
                lemma_first_pos_found(m@, x, i as int);
            }
            return Some(i);
        }
        i = i + 1;
    }
    proof {
        lemma_first_pos_absent(m@, x);
    }
    None
}

impl App {
    /// The positions of the picker's folders that match the typed text
    /// (see `matching_indices_spec`); none without a picker.
    pub fn get_matching_indices(&self) -> (r: Vec<usize>)
        ensures
            r@ == app_matches(*self),
    {
        let low = to_lowercase(self.input_buffer.as_str());
        let q = chars_of(low.as_str());
        let mut out: Vec<usize> = Vec::new();
        if q.len() == 0 {
            match &self.dir_picker {
                Some(dp) => {
                    assert(out@ =~= matching_indices_spec(views(dp.items@), self.input_buffer@));
                },
                None => {},
            }
            return out;
        }
        match &self.dir_picker {
            Some(dp) => {
                push_class(&dp.items, &q, 0, &mut out);
                push_class(&dp.items, &q, 1, &mut out);
                push_class(&dp.items, &q, 2, &mut out);
                assert(out@ =~= matching_indices_spec(views(dp.items@), self.input_buffer@));
            },
            None => {},
        }
        out
    }

    /// Moves the picker highlight to the first match, if any.
    pub fn search_dir_picker(&mut self, _reset: bool)
        ensures
            *final(self) == search_first_spec(*old(self)),
            app_wf(*old(self)) ==> app_wf(*final(self)),
    {
        let matches = self.get_matching_indices();
        match &self.dir_picker {
            Some(dp) => {
                let n = dp.items.len();
                assert(views(dp.items@).len() == n);
                proof {
                    lemma_matches_distinct(views(dp.items@), self.input_buffer@);
                }
            },
            None => {},
        }
        if matches.len() > 0 {
            let first = matches[0];
            match &mut self.dir_picker {
                Some(dp) => {
                    dp.selected_index = first;
                },
                None => {},
            }
        }
    }

    /// Moves the picker highlight to the next match, cycling (see `next_match`).
    pub fn search_dir_picker_next(&mut self)
        ensures
            *final(self) == search_next_spec(*old(self)),
            app_wf(*old(self)) ==> app_wf(*final(self)),
    {
        let matches = self.get_matching_indices();
        if matches.len() == 0 {
            return;
        }
        match &self.dir_picker {
            Some(dp) => {
                let n = dp.items.len();
                assert(views(dp.items@).len() == n);
                proof {
                    lemma_matches_distinct(views(dp.items@), self.input_buffer@);
                }
            },
            None => {},
        }
        match &mut self.dir_picker {
            Some(dp) => {
                let current = dp.selected_index;
                match find_pos(&matches, current) {
                    Some(pos) => {
                        let next_pos = (pos + 1) % matches.len();
                        dp.selected_index = matches[next_pos];
                    },
                    None => {
                        dp.selected_index = matches[0];
                    },
                }
            },
            None => {},
        }
    }

    /// Moves the picker highlight to the previous match, cycling (see `prev_match`).
    pub fn search_dir_picker_prev(&mut self)
        ensures
            *final(self) == search_prev_spec(*old(self)),
            app_wf(*old(self)) ==> app_wf(*final(self)),
    {
        let matches = self.get_matching_indices();
        if matches.len() == 0 {
            return;
        }
        match &self.dir_picker {
            Some(dp) => {
                let n = dp.items.len();
                assert(views(dp.items@).len() == n);
                proof {
                    lemma_matches_distinct(views(dp.items@), self.input_buffer@);
                }
            },
            None => {},
        }
        match &mut self.dir_picker {
            Some(dp) => {
                let current = dp.selected_index;
                match find_pos(&matches, current) {
                    Some(pos) => {
                        let prev_pos = if pos == 0 { matches.len() - 1 } else { pos - 1 };
                        dp.selected_index = matches[prev_pos];
                    },
                    None => {
                        dp.selected_index = matches[matches.len() - 1];
                    },
                }
            },
            None => {},
        }
    }
}

// ── Keys ─────────────────────────────────────────────────────────────────

/// A key press, as the settings screen sees it.
#[derive(Clone, Copy, Debug, PartialEq, Eq)]
pub enum Key {
    /// Enter.
    Enter,
    /// Escape.
    Esc,
    /// Tab.
    Tab,
    /// Arrow up.
    Up,
    /// Arrow down.
    Down,
    /// Backspace.
    Backspace,
    /// A character.
    Char(char),
    /// Any other key.
    Other,
}

/// What the caller does after a key.
#[derive(Debug)]
pub enum KeyOutcome {
    /// Nothing more: draw and wait for the next key.
    Continue,
    /// Leave the settings screen.
    Quit,
    /// Save the configuration now, then call `mark_saved`.
    Save,
    /// List this folder and pass the listing to `refresh_dir_picker`.
    ListDir(String),
    /// Start at login was switched: register the background service (on)
    /// or remove it (off).
    AutoStart(bool),
}

/// The key switches start at login: the entry is highlighted on the
/// general settings.
pub open spec fn switches_auto_start(a: App) -> bool {
    a.current_screen == Screen::GeneralSettings && a.selected_index == 3
}

/// The outcome of a key that acts on a menu entry: the service follows a
/// switched start at login; otherwise nothing more.
pub open spec fn menu_outcome(a: App, b: App, out: KeyOutcome) -> bool {
    if switches_auto_start(a) {
        out matches KeyOutcome::AutoStart(on) && on == b.config.auto_start
    } else {
        out is Continue
    }
}

/// The picker result of an action, as an outcome.
pub open spec fn listing_outcome(out: KeyOutcome) -> Option<Option<String>> {
    match out {
        KeyOutcome::ListDir(d) => Some(Some(d)),
        KeyOutcome::Continue => Some(None),
        _ => None,
    }
}

/// A key while text is typed. A search in the picker follows the text as
/// it is typed (the highlight goes to the first match), and the arrows
/// cycle through the matches.
pub open spec fn typing_key_post(a: App, b: App, key: Key) -> bool {
    let searching = a.input_target == Some(InputTarget::DirPickerSearch);
    match key {
        Key::Enter => submit_input_post(a, b),
        Key::Esc => cancel_input_post(a, b),
        Key::Char(c) => if searching {
            retyped_search(a, b, a.input_buffer@.push(c))
        } else {
            b == App { input_buffer: b.input_buffer, ..a } && b.input_buffer@ == a.input_buffer@.push(c)
        },
        Key::Backspace => if searching {
            retyped_search(a, b, without_last(a.input_buffer@))
        } else {
            b == App { input_buffer: b.input_buffer, ..a } && b.input_buffer@ == without_last(a.input_buffer@)
        },
        Key::Up => b == if searching { search_prev_spec(a) } else { a },
        Key::Down => b == if searching { search_next_spec(a) } else { a },
        _ => b == a,
    }
}

/// A key while a deletion waits for confirmation.
pub open spec fn confirming_key_post(a: App, b: App, key: Key) -> bool {
    match key {
        Key::Char(c) => if c == 'y' || c == 'Y' {
            confirm_delete_post(a, b)
        } else if c == 'n' || c == 'N' {
            b == App { confirm_delete: false, ..a }
        } else {
            b == a
        },
        Key::Esc => b == App { confirm_delete: false, ..a },
        _ => b == a,
    }
}

/// A key on a menu or in the picker.
pub open spec fn navigation_key_post(a: App, b: App, key: Key, out: KeyOutcome) -> bool {
    let in_picker = a.current_screen == Screen::DirPicker;
    match key {
        Key::Tab => out is Continue && if in_picker && a.dir_picker is Some {
            b == App { dir_picker: Some(DirPickerState { focus: next_focus(a.dir_picker->0.focus), ..a.dir_picker->0 }), ..a }
        } else {
            b == a
        },
        Key::Esc => out is Continue && go_back_post(a, b),
        Key::Up => out is Continue && b == move_up_spec(a),
        Key::Down => out is Continue && b == move_down_spec(a),
        Key::Enter => if in_picker {
            listing_outcome(out) matches Some(r) && select_dir_picker_post(a, b, r)
        } else {
            menu_outcome(a, b, out) && select_post(a, b)
        },
        Key::Char(c) => if c == 'q' {
            if a.current_screen == Screen::Main { out is Quit && b == a } else { out is Continue && go_back_post(a, b) }
        } else if c == 'k' {
            out is Continue && b == move_up_spec(a)
        } else if c == 'j' {
            out is Continue && b == move_down_spec(a)
        } else if c == 'a' {
            listing_outcome(out) matches Some(r) && handle_add_post(a, b, r)
        } else if c == 'd' {
            out is Continue && handle_delete_post(a, b)
        } else if c == ' ' {
            if in_picker {
                out is Continue && toggle_selection_post(a, b)
            } else {
                menu_outcome(a, b, out) && toggle_current_post(a, b)
            }
        } else if c == 's' {
            out is Save && b == App { should_save: true, ..a }
        } else if c == '/' {
            out is Continue && if in_picker { start_search_post(a, b) } else { b == a }
        } else {
            out is Continue && b == a
        },
        _ => out is Continue && b == a,
    }
}

/// One key press: typing takes the keys while an input is open, then a
/// waiting deletion, then the menus and the picker.
pub open spec fn handle_key_post(a: App, b: App, key: Key, out: KeyOutcome) -> bool {
    if a.input_mode {
        out is Continue && typing_key_post(a, b, key)
    } else if a.confirm_delete {
        out is Continue && confirming_key_post(a, b, key)
    } else {
        navigation_key_post(a, b, key, out)
    }
}

fn outcome_of(r: Option<String>) -> (out: KeyOutcome)
    ensures
        listing_outcome(out) == Some(r),
{
    match r {
        Some(d) => KeyOutcome::ListDir(d),
        None => KeyOutcome::Continue,
    }
}

/// Toggling an exclusion setting twice leaves the configuration as it was.
pub proof fn lemma_exclude_toggle_twice(a: App)
    requires
        a.selected_index == 0 || a.selected_index == 1 || a.selected_index == 2 || a.selected_index == 5,
    ensures
        select_exclude_spec(select_exclude_spec(a)) == a,
{
    assert(select_exclude_spec(a).selected_index == a.selected_index);
}

/// Leaving the settings screen saves the configuration: the screen starts
/// out saving (`App::new`), and no key press turns that off.
pub proof fn lemma_keys_keep_saving(a: App, b: App, key: Key, out: KeyOutcome)
    requires
        handle_key_post(a, b, key, out),
        a.should_save,
    ensures
        b.should_save,
{
}

impl App {
    #[verifier::rlimit(50)]
    fn navigation_key(&mut self, key: Key) -> (out: KeyOutcome)
        requires
            !old(self).input_mode,
            !old(self).confirm_delete,
        ensures
            navigation_key_post(*old(self), *final(self), key, out),
            app_wf(*old(self)) ==> app_wf(*final(self)),
    {
        let in_picker = self.current_screen == Screen::DirPicker;
        match key {
            Key::Tab => {
                if in_picker {
                    self.cycle_dir_picker_focus();
                }
                KeyOutcome::Continue
            },
            Key::Esc => {
                self.go_back();
                KeyOutcome::Continue
            },
            Key::Up => {
                self.move_up();
                KeyOutcome::Continue
            },
            Key::Down => {
                self.move_down();
                KeyOutcome::Continue
            },
            Key::Enter => {
                if in_picker {
                    let r = self.select_dir_picker();
                    outcome_of(r)
                } else {
                    let switching = self.current_screen == Screen::GeneralSettings && self.selected_index == 3;
                    self.select();
                    if switching {
                        KeyOutcome::AutoStart(self.config.auto_start)
                    } else {
                        KeyOutcome::Continue
                    }
                }
            },
            Key::Char(c) => {
                if c == 'q' {
                    if self.current_screen == Screen::Main {
                        KeyOutcome::Quit
                    } else {
                        self.go_back();
                        KeyOutcome::Continue
                    }
                } else if c == 'k' {
                    self.move_up();
                    KeyOutcome::Continue
                } else if c == 'j' {
                    self.move_down();
                    KeyOutcome::Continue
                } else if c == 'a' {
                    let r = self.handle_add();
                    outcome_of(r)
                } else if c == 'd' {
                    self.handle_delete();
                    KeyOutcome::Continue
                } else if c == ' ' {
                    if in_picker {
                        self.toggle_dir_picker_selection();
                        KeyOutcome::Continue
                    } else {
                        let switching = self.current_screen == Screen::GeneralSettings && self.selected_index == 3;
                        self.toggle_current();
                        if switching {
                            KeyOutcome::AutoStart(self.config.auto_start)
                        } else {
                            KeyOutcome::Continue
                        }
                    }
                } else if c == 's' {
                    self.should_save = true;
                    KeyOutcome::Save
                } else if c == '/' {
                    if in_picker {
                        self.start_dir_picker_search();
                    }
                    KeyOutcome::Continue
                } else {
                    KeyOutcome::Continue
                }
            },
            _ => KeyOutcome::Continue,
        }
    }

    /// Answers one key press (see `handle_key_post`); the outcome says what
    /// the caller does next.
    pub fn handle_key(&mut self, key: Key) -> (out: KeyOutcome)
        ensures
            handle_key_post(*old(self), *final(self), key, out),
            app_wf(*old(self)) ==> app_wf(*final(self)),
    {
        if self.input_mode {
            let searching = self.input_target == Some(InputTarget::DirPickerSearch);
            match key {
                Key::Enter => self.submit_input(),
                Key::Esc => self.cancel_input(),
                Key::Char(c) => {
                    self.input_push(c);
                    if searching {
                        self.search_dir_picker(false);
                    }
                },
                Key::Backspace => {
                    self.input_pop();
                    if searching {
                        self.search_dir_picker(false);
                    }
                },
                Key::Up => {
                    if searching {
                        self.search_dir_picker_prev();
                    }
                },
                Key::Down => {
                    if searching {
                        self.search_dir_picker_next();
                    }
                },
                _ => {},
            }
            return KeyOutcome::Continue;
        }
        if self.confirm_delete {
            match key {
                Key::Char(c) => {
                    if c == 'y' || c == 'Y' {
                        self.confirm_delete_yes();
                    } else if c == 'n' || c == 'N' {
                        self.confirm_delete = false;
                    }
                },
                Key::Esc => {
                    self.confirm_delete = false;
                },
                _ => {},
            }
            return KeyOutcome::Continue;
        }
        self.navigation_key(key)
    }

    /// Notes on the status line that the configuration was saved.
    pub fn mark_saved(&mut self)
        ensures
            *final(self) == (App { status_message: final(self).status_message, ..*old(self) }),
            final(self).status_message@ == status_saved(),
            app_wf(*old(self)) ==> app_wf(*final(self)),
    {
        self.status_message = "✅ 설정이 저장되었습니다.".to_owned();
    }
}

} // verus!
