//! Which names need converting to NFC and to what, which paths are left
//! alone, and in which order a folder tree is processed.

use vstd::prelude::*;
use unicode_normalization::UnicodeNormalization;
use vstd::multiset::Multiset;
use crate::config::{StickConfig, views};
use crate::path::{
    extension_of, extension_of_name, file_name, file_name_of, has_component, is_normal_piece,
    opt_view, path_pieces, split_pieces, stem_of, stem_of_name,
};
use crate::text::{
    chars_equal, chars_of, decimal, decimal_string, eq_ignore_ascii_case,
    eq_ignore_ascii_case_spec, push_char, string_from_chars,
};

verus! {

// ── Unicode normalization ────────────────────────────────────────────────

/// The NFC form of a text, as `unicode_normalization` computes it (a
/// function of the text alone; the Unicode tables behind it are not stated).
pub uninterp spec fn nfc_of(s: Seq<char>) -> Seq<char>;

/// All characters of the text are ASCII.
pub open spec fn is_ascii_text(s: Seq<char>) -> bool {
    forall|i: int| 0 <= i < s.len() ==> (#[trigger] s[i] as u32) < 128
}

/// `UnicodeNormalization::nfc`, collected into a string. Claims: the result
/// is `nfc_of` of the argument; it is itself in NFC (normalizing it again
/// changes nothing, as Unicode Standard Annex #15 defines the form); and an
/// all-ASCII text comes back unchanged.
#[verifier::external_body]
fn nfc_string(text: &str) -> (r: String)
    ensures
        r@ == nfc_of(text@),
        nfc_of(r@) == r@,
        is_ascii_text(text@) ==> r@ == text@,
{
    text.nfc().collect()
}

/// A text needs converting: its NFC form differs from it.
pub open spec fn needs_nfc(s: Seq<char>) -> bool {
    nfc_of(s) != s
}

/// Whether the text is not in NFC form (for Hangul on macOS: decomposed).
pub fn is_nfd_string(text: &str) -> (b: bool)
    ensures
        b == needs_nfc(text@),
        is_ascii_text(text@) ==> !b,
{
    let normalized = nfc_string(text);
    let original = text.to_owned();
    !(normalized == original)
}

/// The text in NFC form. The result never needs converting again.
pub fn to_nfc(text: &str) -> (r: String)
    ensures
        r@ == nfc_of(text@),
        !needs_nfc(r@),
        is_ascii_text(text@) ==> r@ == text@,
{
    nfc_string(text)
}

// ── Exclusion rules ──────────────────────────────────────────────────────

/// Some entry of `list` is equal to `x`.
pub open spec fn list_has(list: Seq<Seq<char>>, x: Seq<char>) -> bool {
    exists|j: int| 0 <= j < list.len() && #[trigger] list[j] == x
}

/// Some entry of `list` equals `x` when ASCII case is ignored.
pub open spec fn list_has_ignore_case(list: Seq<Seq<char>>, x: Seq<char>) -> bool {
    exists|j: int| 0 <= j < list.len() && eq_ignore_ascii_case_spec(#[trigger] list[j], x)
}

/// Some normal component of the path is a listed folder name.
pub open spec fn in_listed_folder(p: Seq<char>, list: Seq<Seq<char>>) -> bool {
    exists|j: int| 0 <= j < list.len() && has_component(p, #[trigger] list[j])
}

/// The exclusion rule of a path whose final name is `name`.
pub open spec fn excluded_name(
    p: Seq<char>,
    name: Seq<char>,
    is_symlink: bool,
    is_dir: bool,
    c: StickConfig,
) -> bool {
    ||| c.exclude_hidden && name.len() > 0 && name[0] == '.'
    ||| c.exclude_symlinks && is_symlink
    ||| c.exclude_temp_files && name.len() > 0 && name.last() == '~'
    ||| (match extension_of_name(name) {
        Some(e) => list_has_ignore_case(views(c.exclude_extensions@), seq!['.'] + e),
        None => false,
    })
    ||| is_dir && list_has(views(c.exclude_directories@), name)
    ||| in_listed_folder(p, views(c.exclude_directories@))
}

/// A path is left alone: it has no final name, or it is hidden, a link, a
/// temporary file, has an excluded extension, or lies in (or is) an excluded
/// folder, as far as the configuration asks for each.
pub open spec fn excluded(p: Seq<char>, is_symlink: bool, is_dir: bool, c: StickConfig) -> bool {
    match file_name_of(p) {
        None => true,
        Some(name) => excluded_name(p, name, is_symlink, is_dir, c),
    }
}

/// With hidden names excluded, every path whose final name starts with a
/// dot is left alone: files and folders alike, links or not (so a hidden
/// folder is never walked into).
pub proof fn lemma_hidden_names_excluded(p: Seq<char>, is_symlink: bool, is_dir: bool, c: StickConfig)
    requires
        c.exclude_hidden,
    ensures
        forall|n: Seq<char>| file_name_of(p) == Some(n) && n.len() > 0 && n[0] == '.'
            ==> excluded(p, is_symlink, is_dir, c),
{
}

fn list_contains(list: &Vec<String>, x: &Vec<char>) -> (b: bool)
    ensures
        b == list_has(views(list@), x@),
{
    let mut j: usize = 0;
    while j < list.len()
        invariant
            j <= list@.len(),
            forall|k: int| 0 <= k < j ==> views(list@)[k] != x@,
        decreases list@.len() - j,
    {
        let item = chars_of(list[j].as_str());
        if chars_equal(&item, x) {
            assert(views(list@)[j as int] == x@);
            return true;
        }
        j = j + 1;
    }
    false
}

fn list_contains_ignore_case(list: &Vec<String>, x: &Vec<char>) -> (b: bool)
    ensures
        b == list_has_ignore_case(views(list@), x@),
{
    let mut j: usize = 0;
    while j < list.len()
        invariant
            j <= list@.len(),
            forall|k: int| 0 <= k < j ==> !eq_ignore_ascii_case_spec(views(list@)[k], x@),
        decreases list@.len() - j,
    {
        let item = chars_of(list[j].as_str());
        if eq_ignore_ascii_case(&item, x) {
            assert(eq_ignore_ascii_case_spec(views(list@)[j as int], x@));
            return true;
        }
        j = j + 1;
    }
    false
}

fn any_component_listed(path: &Vec<char>, list: &Vec<String>) -> (b: bool)
    ensures
        b == in_listed_folder(path@, views(list@)),
{
    let pieces = split_pieces(path);
    let dot: Vec<char> = vec!['.'];
    let dotdot: Vec<char> = vec!['.', '.'];
    let mut i: usize = 0;
    while i < pieces.len()
        invariant
            i <= pieces@.len(),
            pieces.deep_view() == path_pieces(path@),
            dot@ == seq!['.'],
            dotdot@ == seq!['.', '.'],
            forall|k: int, j: int| 0 <= k < i && 0 <= j < list@.len() ==>
                !(is_normal_piece(#[trigger] path_pieces(path@)[k]) && path_pieces(path@)[k] == #[trigger] views(list@)[j]),
        decreases pieces@.len() - i,
    {
        let piece = &pieces[i];
        assert(piece@ == path_pieces(path@)[i as int]);
        if piece.len() > 0 && !chars_equal(piece, &dot) && !chars_equal(piece, &dotdot) {
            if list_contains(list, piece) {
                let ghost j = choose|j: int| 0 <= j < views(list@).len() && views(list@)[j] == piece@;
                assert(has_component(path@, views(list@)[j]));
                return true;
            }
        }
        i = i + 1;
    }
    assert forall|j: int| 0 <= j < views(list@).len() implies !has_component(path@, #[trigger] views(list@)[j]) by {
        assert forall|k: int| 0 <= k < path_pieces(path@).len() && is_normal_piece(#[trigger] path_pieces(path@)[k])
            implies path_pieces(path@)[k] != views(list@)[j] by {
        }
    }
    false
}

/// Whether a path is left alone by the conversion (see `excluded`).
/// `is_symlink` and `is_dir` say what the disk holds at the path.
pub fn should_exclude(path: &str, is_symlink: bool, is_dir: bool, config: &StickConfig) -> (b: bool)
    ensures
        b == excluded(path@, is_symlink, is_dir, *config),
{
    let name_opt = file_name(path);
    let name = match name_opt {
        Some(n) => n,
        None => return true,
    };
    let chars = chars_of(name.as_str());
    let path_chars = chars_of(path);
    if config.exclude_hidden && chars.len() > 0 && chars[0] == '.' {
        return true;
    }
    if config.exclude_symlinks && is_symlink {
        return true;
    }
    if config.exclude_temp_files && chars.len() > 0 && chars[chars.len() - 1] == '~' {
        return true;
    }
    match extension_of(&chars) {
        Some(ext) => {
            let mut dotted: Vec<char> = vec!['.'];
            let mut k: usize = 0;
            while k < ext.len()
                invariant
                    k <= ext@.len(),
                    dotted@ == seq!['.'] + ext@.subrange(0, k as int),
                decreases ext@.len() - k,
            {
                dotted.push(ext[k]);
                k = k + 1;
            }
            assert(ext@.subrange(0, ext@.len() as int) == ext@);
            if list_contains_ignore_case(&config.exclude_extensions, &dotted) {
                return true;
            }
        },
        None => {},
    }
    if is_dir && list_contains(&config.exclude_directories, &chars) {
        return true;
    }
    any_component_listed(&path_chars, &config.exclude_directories)
}

// ── Renaming one entry ───────────────────────────────────────────────────

/// Errors found while working out a rename.
#[derive(Clone, Copy, Debug, PartialEq, Eq)]
pub enum ScanError {
    /// The path has no final name to convert.
    NoFileName,
}

impl ScanError {
    /// The message shown for the error.
    pub fn message(&self) -> (m: String)
        ensures
            m@ == "파일명을 읽을 수 없습니다"@,
    {
        "파일명을 읽을 수 없습니다".to_owned()
    }
}

/// The name a path's final name should be renamed to: its NFC form when it
/// is not in NFC; none when it is already; an error when the path has no name.
pub open spec fn rename_target(p: Seq<char>) -> Result<Option<Seq<char>>, ScanError> {
    match file_name_of(p) {
        None => Err(ScanError::NoFileName),
        Some(name) => if needs_nfc(name) { Ok(Some(nfc_of(name))) } else { Ok(None) },
    }
}

/// The NFC name a path should get, if it needs one (first part of
/// `normalize_path`; the disk checks and the rename happen around it). A
/// name given out never needs converting again.
pub fn plan_rename(path: &str) -> (r: Result<Option<String>, ScanError>)
    ensures
        match r {
            Ok(Some(n)) => rename_target(path@) == Ok::<Option<Seq<char>>, ScanError>(Some(n@)),
            Ok(None) => rename_target(path@) == Ok::<Option<Seq<char>>, ScanError>(None),
            Err(e) => rename_target(path@) == Err::<Option<Seq<char>>, ScanError>(e),
        },
        r matches Ok(Some(n)) ==> !needs_nfc(n@),
{
    match file_name(path) {
        None => Err(ScanError::NoFileName),
        Some(name) => {
            if is_nfd_string(name.as_str()) {
                Ok(Some(to_nfc(name.as_str())))
            } else {
                Ok(None)
            }
        },
    }
}

/// Every name that is not in NFC is renamed to its NFC form, whatever it
/// looks like (with or without an extension, file or folder); a name
/// already in NFC is left as it is; a path without a final name is an error.
pub proof fn lemma_rename_target_is_nfc_form(p: Seq<char>)
    ensures
        file_name_of(p) is None ==> rename_target(p) == Err::<Option<Seq<char>>, ScanError>(ScanError::NoFileName),
        forall|n: Seq<char>| file_name_of(p) == Some(n) && nfc_of(n) != n
            ==> rename_target(p) == Ok::<Option<Seq<char>>, ScanError>(Some(nfc_of(n))),
        forall|n: Seq<char>| file_name_of(p) == Some(n) && nfc_of(n) == n
            ==> rename_target(p) == Ok::<Option<Seq<char>>, ScanError>(None),
{
}

/// The name used when the NFC name is taken by another file: the NFC stem,
/// `_conflict`, `_<counter>` from the second attempt on, then the original
/// extension.
pub open spec fn conflict_name_spec(name: Seq<char>, counter: nat) -> Seq<char> {
    let stem = nfc_of(stem_of_name(name));
    let ext = match extension_of_name(name) {
        Some(e) => e,
        None => Seq::<char>::empty(),
    };
    let suffix = if counter > 1 { seq!['_'] + decimal(counter) } else { Seq::<char>::empty() };
    if ext.len() == 0 {
        stem + "_conflict"@ + suffix
    } else {
        stem + "_conflict"@ + suffix + seq!['.'] + ext
    }
}

/// The `counter`-th name tried for a file whose original name is
/// `file_name` when its NFC name is taken by a different file.
pub fn conflict_name(file_name: &str, counter: u64) -> (r: String)
    ensures
        r@ == conflict_name_spec(file_name@, counter as nat),
{
    let chars = chars_of(file_name);
    let stem = stem_of(&chars);
    let stem_text = string_from_chars(&stem);
    let mut out = to_nfc(stem_text.as_str());
    out.append("_conflict");
    if counter > 1 {
        push_char(&mut out, '_');
        let digits = decimal_string(counter);
        out.append(digits.as_str());
    }
    match extension_of(&chars) {
        Some(ext) => {
            if ext.len() > 0 {
                push_char(&mut out, '.');
                let ext_text = string_from_chars(&ext);
                out.append(ext_text.as_str());
            }
        },
        None => {},
    }
    out
}

/// The next move of the search for a free conflict name.
#[derive(Debug)]
pub enum ConflictStep {
    /// This name is free: rename to it.
    Use(String),
    /// The candidate was taken: try this counter next.
    Try(u64),
}

/// One step of the search for a free conflict name (see
/// `lemma_conflict_search_least`): candidate `counter` of `file_name` was
/// found `taken` or not; a free candidate is used, after a taken one the
/// next counter is tried.
pub fn conflict_step(file_name: &str, counter: u64, taken: bool) -> (r: ConflictStep)
    requires
        taken ==> counter < u64::MAX,
    ensures
        match r {
            ConflictStep::Use(n) => !taken && n@ == conflict_name_spec(file_name@, counter as nat),
            ConflictStep::Try(c) => taken && c == counter + 1,
        },
{
    if taken {
        ConflictStep::Try(counter + 1)
    } else {
        ConflictStep::Use(conflict_name(file_name, counter))
    }
}

/// The candidate a search settles on when it asks from counter `c` on, at
/// most `fuel` times; `taken(k)` says whether candidate `k` is taken.
pub open spec fn search_from(taken: spec_fn(nat) -> bool, c: nat, fuel: nat) -> Option<nat>
    decreases fuel,
{
    if fuel == 0 {
        None
    } else if !taken(c) {
        Some(c)
    } else {
        search_from(taken, c + 1, (fuel - 1) as nat)
    }
}

proof fn lemma_search_from(taken: spec_fn(nat) -> bool, c: nat, k: nat)
    requires
        c <= k,
        !taken(k),
        forall|j: nat| c <= j < k ==> #[trigger] taken(j),
    ensures
        search_from(taken, c, (k - c + 1) as nat) == Some(k),
    decreases k - c,
{
    if c < k {
        assert(taken(c));
        lemma_search_from(taken, c + 1, k);
        assert((k - c + 1) as nat - 1 == (k - (c + 1) + 1) as nat);
    }
}

/// The search for a free conflict name, started at counter 1 and moving on
/// after each taken candidate (as `conflict_step` does), settles on the
/// least free candidate: every candidate before it was taken.
pub proof fn lemma_conflict_search_least(taken: spec_fn(nat) -> bool, k: nat)
    requires
        k >= 1,
        !taken(k),
        forall|j: nat| 1 <= j < k ==> #[trigger] taken(j),
    ensures
        search_from(taken, 1, k) == Some(k),
{
    lemma_search_from(taken, 1, k);
}

/// One file or folder that was (or would be) renamed.
#[derive(Clone, Debug)]
pub struct RenameEntry {
    /// The path before.
    pub original_path: String,
    /// The path after.
    pub new_path: String,
    /// The name before.
    pub original_name: String,
    /// The name after.
    pub new_name: String,
}

/// The texts of a rename entry: path before, path after, name before, name after.
pub open spec fn entry_view(e: RenameEntry) -> (Seq<char>, Seq<char>, Seq<char>, Seq<char>) {
    (e.original_path@, e.new_path@, e.original_name@, e.new_name@)
}

/// A rename decided for `path` (final name `file_name`) to the name
/// `new_name` at `new_path`; the rename is performed only outside a dry run.
#[derive(Debug)]
pub struct RenameDecision {
    /// What is reported.
    pub entry: RenameEntry,
    /// Whether the file is renamed on disk.
    pub perform: bool,
}

/// `d` is the decision for these texts: the entry names them as they are,
/// whatever the mode, and the rename happens only in a real run.
pub open spec fn decided(
    d: RenameDecision,
    path: Seq<char>,
    file_name: Seq<char>,
    new_name: Seq<char>,
    new_path: Seq<char>,
    dry_run: bool,
) -> bool {
    &&& entry_view(d.entry) == (path, new_path, file_name, new_name)
    &&& d.perform == !dry_run
}

/// The last part of `normalize_path`, once the name is chosen: the entry
/// to report, and whether to rename (see `decided`).
pub fn decide_rename(
    path: &str,
    file_name: String,
    new_name: String,
    new_path: String,
    dry_run: bool,
) -> (d: RenameDecision)
    ensures
        decided(d, path@, file_name@, new_name@, new_path@, dry_run),
{
    RenameDecision {
        entry: RenameEntry { original_path: path.to_owned(), new_path, original_name: file_name, new_name },
        perform: !dry_run,
    }
}

/// A dry run reports exactly what a real run does: the name is chosen by
/// `plan_rename` and `conflict_step`, which take no mode, and for the same
/// path and chosen name the two decisions report the same entry; only the
/// real run renames.
pub proof fn lemma_dry_run_reports_real_rename(
    dry: RenameDecision,
    actual: RenameDecision,
    path: Seq<char>,
    file_name: Seq<char>,
    new_name: Seq<char>,
    new_path: Seq<char>,
)
    requires
        decided(dry, path, file_name, new_name, new_path, true),
        decided(actual, path, file_name, new_name, new_path, false),
    ensures
        entry_view(dry.entry) == entry_view(actual.entry),
        !dry.perform,
        actual.perform,
{
}

/// What a whole scan did.
#[derive(Debug)]
pub struct ScanResult {
    /// Entries renamed (or, in a dry run, to be renamed).
    pub renamed: Vec<RenameEntry>,
    /// Entries left alone by the exclusion rules.
    pub skipped_count: usize,
    /// Messages of the entries that failed.
    pub errors: Vec<String>,
    /// Entries looked at.
    pub total_scanned: usize,
}

/// The summary line of a scan.
pub open spec fn summary_spec(total: nat, renamed: nat, skipped: nat, errors: nat) -> Seq<char> {
    "스캔 완료: 전체 "@ + decimal(total) + "건 검사, 변환 "@ + decimal(renamed) + "건, 스킵 "@
        + decimal(skipped) + "건, 에러 "@ + decimal(errors) + "건"@
}

impl ScanResult {
    /// A result with nothing counted yet.
    pub fn new() -> (r: ScanResult)
        ensures
            r.renamed@.len() == 0,
            r.skipped_count == 0,
            r.errors@.len() == 0,
            r.total_scanned == 0,
    {
        ScanResult { renamed: Vec::new(), skipped_count: 0, errors: Vec::new(), total_scanned: 0 }
    }

    /// The summary line: totals looked at, renamed, skipped and failed.
    pub fn summary(&self) -> (s: String)
        ensures
            s@ == summary_spec(
                self.total_scanned as nat,
                self.renamed@.len(),
                self.skipped_count as nat,
                self.errors@.len(),
            ),
    {
        let mut s = "스캔 완료: 전체 ".to_owned();
        s.append(decimal_string(self.total_scanned as u64).as_str());
        s.append("건 검사, 변환 ");
        s.append(decimal_string(self.renamed.len() as u64).as_str());
        s.append("건, 스킵 ");
        s.append(decimal_string(self.skipped_count as u64).as_str());
        s.append("건, 에러 ");
        s.append(decimal_string(self.errors.len() as u64).as_str());
        s.append("건");
        s
    }
}

// ── Walking a tree ───────────────────────────────────────────────────────

/// One entry found while walking a watched folder.
#[derive(Debug)]
pub struct WalkEntry {
    /// Its path.
    pub path: String,
    /// How far below the walked folder it lies (the folder itself is 0).
    pub depth: usize,
    /// Whether a folder is there (links followed).
    pub is_dir: bool,
    /// Whether the path itself is a symbolic link.
    pub is_symlink: bool,
}

impl WalkEntry {
    /// An equal entry.
    pub fn duplicate(&self) -> (r: WalkEntry)
        ensures
            r == *self,
    {
        WalkEntry {
            path: self.path.clone(),
            depth: self.depth,
            is_dir: self.is_dir,
            is_symlink: self.is_symlink,
        }
    }
}

/// The entries at depth `d`, in their order.
pub open spec fn with_depth(s: Seq<WalkEntry>, d: nat) -> Seq<WalkEntry>
    decreases s.len(),
{
    if s.len() == 0 {
        Seq::empty()
    } else if s.last().depth == d {
        with_depth(s.drop_last(), d).push(s.last())
    } else {
        with_depth(s.drop_last(), d)
    }
}

/// The entries at depths `top`, `top - 1`, ..., `top - count + 1`, level by
/// level, each level in its original order.
pub open spec fn desc_levels(s: Seq<WalkEntry>, top: int, count: nat) -> Seq<WalkEntry>
    decreases count,
{
    if count == 0 {
        Seq::empty()
    } else {
        desc_levels(s, top, (count - 1) as nat) + with_depth(s, (top - (count - 1)) as nat)
    }
}

/// The greatest depth among the entries (0 for none).
pub open spec fn max_depth(s: Seq<WalkEntry>) -> nat
    decreases s.len(),
{
    if s.len() == 0 {
        0
    } else if max_depth(s.drop_last()) >= s.last().depth {
        max_depth(s.drop_last())
    } else {
        s.last().depth as nat
    }
}

/// The entries deepest first (leaf to root), keeping the walk order among
/// entries of equal depth: the order in which renames cannot invalidate the
/// paths still to come.
pub open spec fn leaf_first(s: Seq<WalkEntry>) -> Seq<WalkEntry> {
    desc_levels(s, max_depth(s) as int, max_depth(s) + 1)
}

/// Depths never increase along the sequence.
pub open spec fn depth_non_increasing(s: Seq<WalkEntry>) -> bool {
    forall|i: int, j: int| 0 <= i < j < s.len() ==> #[trigger] s[i].depth >= #[trigger] s[j].depth
}

proof fn lemma_max_depth(s: Seq<WalkEntry>)
    ensures
        forall|i: int| 0 <= i < s.len() ==> #[trigger] s[i].depth <= max_depth(s),
    decreases s.len(),
{
    if s.len() > 0 {
        lemma_max_depth(s.drop_last());
        assert forall|i: int| 0 <= i < s.len() implies #[trigger] s[i].depth <= max_depth(s) by {
            if i < s.len() - 1 {
                assert(s[i] == s.drop_last()[i]);
            }
        }
    }
}

proof fn lemma_with_depth_depths(s: Seq<WalkEntry>, d: nat)
    ensures
        forall|i: int| 0 <= i < with_depth(s, d).len() ==> #[trigger] with_depth(s, d)[i].depth == d,
    decreases s.len(),
{
    if s.len() > 0 {
        lemma_with_depth_depths(s.drop_last(), d);
        let prev = with_depth(s.drop_last(), d);
        if s.last().depth == d {
            assert forall|i: int| 0 <= i < with_depth(s, d).len() implies #[trigger] with_depth(s, d)[i].depth == d by {
                if i < prev.len() {
                    assert(with_depth(s, d)[i] == prev[i]);
                }
            }
        }
    }
}

proof fn lemma_desc_levels_sorted(s: Seq<WalkEntry>, top: int, count: nat)
    requires
        count <= top + 1,
    ensures
        depth_non_increasing(desc_levels(s, top, count)),
        forall|i: int| 0 <= i < desc_levels(s, top, count).len() ==>
            #[trigger] desc_levels(s, top, count)[i].depth >= top - count + 1,
    decreases count,
{
    if count > 0 {
        let prev = desc_levels(s, top, (count - 1) as nat);
        let lvl = with_depth(s, (top - (count - 1)) as nat);
        lemma_desc_levels_sorted(s, top, (count - 1) as nat);
        lemma_with_depth_depths(s, (top - (count - 1)) as nat);
        let all = desc_levels(s, top, count);
        assert(all == prev + lvl);
        assert forall|i: int, j: int| 0 <= i < j < all.len() implies #[trigger] all[i].depth >= #[trigger] all[j].depth by {
            if j < prev.len() {
                assert(all[i] == prev[i] && all[j] == prev[j]);
            } else if i < prev.len() {
                assert(all[i] == prev[i] && all[j] == lvl[j - prev.len()]);
            } else {
                assert(all[i] == lvl[i - prev.len()] && all[j] == lvl[j - prev.len()]);
            }
        }
        assert forall|i: int| 0 <= i < all.len() implies #[trigger] all[i].depth >= top - count + 1 by {
            if i < prev.len() {
                assert(all[i] == prev[i]);
            } else {
                assert(all[i] == lvl[i - prev.len()]);
            }
        }
    }
}

proof fn lemma_with_depth_push(s: Seq<WalkEntry>, x: WalkEntry, d: nat)
    ensures
        with_depth(s.push(x), d).to_multiset() == if x.depth == d {
            with_depth(s, d).to_multiset().insert(x)
        } else {
            with_depth(s, d).to_multiset()
        },
{
    broadcast use vstd::seq_lib::group_to_multiset_ensures;
    assert(s.push(x).drop_last() == s);
}

proof fn lemma_desc_levels_push(s: Seq<WalkEntry>, x: WalkEntry, top: int, count: nat)
    requires
        count <= top + 1,
    ensures
        desc_levels(s.push(x), top, count).to_multiset() == if top - count + 1 <= x.depth <= top {
            desc_levels(s, top, count).to_multiset().insert(x)
        } else {
            desc_levels(s, top, count).to_multiset()
        },
    decreases count,
{
    broadcast use vstd::seq_lib::group_to_multiset_ensures;
    if count > 0 {
        let c1 = (count - 1) as nat;
        let d = (top - c1) as nat;
        lemma_desc_levels_push(s, x, top, c1);
        lemma_with_depth_push(s, x, d);
        vstd::seq_lib::lemma_multiset_commutative(desc_levels(s.push(x), top, c1), with_depth(s.push(x), d));
        vstd::seq_lib::lemma_multiset_commutative(desc_levels(s, top, c1), with_depth(s, d));
        assert(desc_levels(s.push(x), top, count).to_multiset()
            =~= desc_levels(s, top, count).to_multiset().add(
                if top - count + 1 <= x.depth <= top { Multiset::singleton(x) } else { Multiset::empty() },
            ));
    } else {
        assert(desc_levels(s, top, 0) == Seq::<WalkEntry>::empty());
        assert(desc_levels(s.push(x), top, 0) == Seq::<WalkEntry>::empty());
    }
}

proof fn lemma_desc_levels_perm(s: Seq<WalkEntry>, top: int)
    requires
        top >= 0,
        forall|i: int| 0 <= i < s.len() ==> #[trigger] s[i].depth <= top,
    ensures
        desc_levels(s, top, (top + 1) as nat).to_multiset() == s.to_multiset(),
    decreases s.len(),
{
    broadcast use vstd::seq_lib::group_to_multiset_ensures;
    if s.len() == 0 {
        lemma_desc_levels_empty(s, top, (top + 1) as nat);
    } else {
        let s1 = s.drop_last();
        let x = s.last();
        assert forall|i: int| 0 <= i < s1.len() implies #[trigger] s1[i].depth <= top by {
            assert(s1[i] == s[i]);
        }
        lemma_desc_levels_perm(s1, top);
        assert(s1.push(x) == s);
        lemma_desc_levels_push(s1, x, top, (top + 1) as nat);
        assert(s[s.len() - 1].depth <= top);
    }
}

proof fn lemma_desc_levels_empty(s: Seq<WalkEntry>, top: int, count: nat)
    requires
        s.len() == 0,
    ensures
        desc_levels(s, top, count).len() == 0,
    decreases count,
{
    if count > 0 {
        lemma_desc_levels_empty(s, top, (count - 1) as nat);
    }
}

/// Leaf-first order is a reordering of the walked entries (each entry comes
/// out exactly as often as it went in), and along it depths never increase:
/// every entry comes before the folders that contain it.
pub proof fn lemma_leaf_first_is_sorted_permutation(s: Seq<WalkEntry>)
    ensures
        leaf_first(s).to_multiset() == s.to_multiset(),
        depth_non_increasing(leaf_first(s)),
{
    lemma_max_depth(s);
    lemma_desc_levels_perm(s, max_depth(s) as int);
    lemma_desc_levels_sorted(s, max_depth(s) as int, max_depth(s) + 1);
}

fn max_depth_of(entries: &Vec<WalkEntry>) -> (m: usize)
    ensures
        m == max_depth(entries@),
{
    let mut m: usize = 0;
    let mut i: usize = 0;
    assert(entries@.subrange(0, 0) == Seq::<WalkEntry>::empty());
    while i < entries.len()
        invariant
            i <= entries@.len(),
            m == max_depth(entries@.subrange(0, i as int)),
        decreases entries@.len() - i,
    {
        assert(entries@.subrange(0, i + 1).drop_last() == entries@.subrange(0, i as int));
        if entries[i].depth > m {
            m = entries[i].depth;
        }
        i = i + 1;
    }
    assert(entries@.subrange(0, entries@.len() as int) == entries@);
    m
}

fn append_level(entries: &Vec<WalkEntry>, level: usize, out: &mut Vec<WalkEntry>)
    ensures
        final(out)@ == old(out)@ + with_depth(entries@, level as nat),
{
    let ghost start = out@;
    let mut i: usize = 0;
    assert(entries@.subrange(0, 0) == Seq::<WalkEntry>::empty());
    assert(start + Seq::<WalkEntry>::empty() == start);
    while i < entries.len()
        invariant
            i <= entries@.len(),
            out@ == start + with_depth(entries@.subrange(0, i as int), level as nat),
        decreases entries@.len() - i,
    {
        let ghost pre = entries@.subrange(0, i + 1);
        assert(pre.drop_last() == entries@.subrange(0, i as int));
        assert(pre.last() == entries@[i as int]);
        if entries[i].depth == level {
            let e = entries[i].duplicate();
            out.push(e);
            assert(out@ =~= start + with_depth(pre, level as nat));
        }
        i = i + 1;
    }
    assert(entries@.subrange(0, entries@.len() as int) == entries@);
}

/// The walked entries in leaf-first order (see `leaf_first`).
pub fn order_leaf_first(entries: &Vec<WalkEntry>) -> (r: Vec<WalkEntry>)
    ensures
        r@ == leaf_first(entries@),
{
    let maxd = max_depth_of(entries);
    let mut out: Vec<WalkEntry> = Vec::new();
    let mut level: usize = maxd;
    assert(desc_levels(entries@, maxd as int, 0) == Seq::<WalkEntry>::empty());
    loop
        invariant_except_break
            out@ == desc_levels(entries@, maxd as int, (maxd - level) as nat),
        invariant
            level <= maxd,
            maxd == max_depth(entries@),
        ensures
            out@ == desc_levels(entries@, maxd as int, maxd as nat + 1),
        decreases level,
    {
        append_level(entries, level, &mut out);
        assert(out@ == desc_levels(entries@, maxd as int, (maxd - level + 1) as nat));
        if level == 0 {
            break;
        }
        level = level - 1;
    }
    out
}

/// Entries other than the walked folder itself.
pub open spec fn scanned_count(ord: Seq<WalkEntry>, root: Seq<char>) -> nat
    decreases ord.len(),
{
    if ord.len() == 0 {
        0
    } else {
        scanned_count(ord.drop_last(), root) + if ord.last().path@ != root { 1nat } else { 0nat }
    }
}

/// Entries other than the walked folder itself that the rules leave alone.
pub open spec fn skipped_count_spec(ord: Seq<WalkEntry>, root: Seq<char>, c: StickConfig) -> nat
    decreases ord.len(),
{
    if ord.len() == 0 {
        0
    } else {
        skipped_count_spec(ord.drop_last(), root, c) + if ord.last().path@ != root && excluded(
            ord.last().path@,
            ord.last().is_symlink,
            ord.last().is_dir,
            c,
        ) {
            1nat
        } else {
            0nat
        }
    }
}

/// Entries to convert: not the walked folder, not left alone; in the given order.
pub open spec fn convert_list(ord: Seq<WalkEntry>, root: Seq<char>, c: StickConfig) -> Seq<WalkEntry>
    decreases ord.len(),
{
    if ord.len() == 0 {
        Seq::empty()
    } else if ord.last().path@ != root && !excluded(ord.last().path@, ord.last().is_symlink, ord.last().is_dir, c) {
        convert_list(ord.drop_last(), root, c).push(ord.last())
    } else {
        convert_list(ord.drop_last(), root, c)
    }
}

proof fn lemma_convert_list_props(ord: Seq<WalkEntry>, root: Seq<char>, c: StickConfig)
    ensures
        forall|i: int| 0 <= i < convert_list(ord, root, c).len() ==> exists|k: int|
            0 <= k < ord.len() && #[trigger] convert_list(ord, root, c)[i] == ord[k],
        forall|i: int| 0 <= i < convert_list(ord, root, c).len() ==> {
            let e = #[trigger] convert_list(ord, root, c)[i];
            e.path@ != root && !excluded(e.path@, e.is_symlink, e.is_dir, c)
        },
        depth_non_increasing(ord) ==> depth_non_increasing(convert_list(ord, root, c)),
        scanned_count(ord, root) == convert_list(ord, root, c).len() + skipped_count_spec(ord, root, c),
    decreases ord.len(),
{
    if ord.len() > 0 {
        let pre = ord.drop_last();
        let last = ord.last();
        let cl = convert_list(ord, root, c);
        let cp = convert_list(pre, root, c);
        lemma_convert_list_props(pre, root, c);
        assert forall|i: int| 0 <= i < cp.len() implies exists|k: int| 0 <= k < ord.len() && #[trigger] cp[i] == ord[k] by {
            let k = choose|k: int| 0 <= k < pre.len() && cp[i] == pre[k];
            assert(pre[k] == ord[k]);
        }
        if last.path@ != root && !excluded(last.path@, last.is_symlink, last.is_dir, c) {
            assert(cl == cp.push(last));
            assert forall|i: int| 0 <= i < cl.len() implies exists|k: int| 0 <= k < ord.len() && #[trigger] cl[i] == ord[k] by {
                if i < cp.len() {
                    assert(cl[i] == cp[i]);
                } else {
                    assert(cl[i] == ord[ord.len() - 1]);
                }
            }
            if depth_non_increasing(ord) {
                assert(depth_non_increasing(pre)) by {
                    assert forall|i: int, j: int| 0 <= i < j < pre.len() implies #[trigger] pre[i].depth >= #[trigger] pre[j].depth by {
                        assert(pre[i] == ord[i] && pre[j] == ord[j]);
                    }
                }
                assert forall|i: int, j: int| 0 <= i < j < cl.len() implies #[trigger] cl[i].depth >= #[trigger] cl[j].depth by {
                    if j < cp.len() {
                        assert(cl[i] == cp[i] && cl[j] == cp[j]);
                    } else {
                        assert(cl[i] == cp[i] && cl[j] == last);
                        let k = choose|k: int| 0 <= k < pre.len() && cp[i] == pre[k];
                        assert(pre[k] == ord[k]);
                        assert(ord[k].depth >= ord[ord.len() - 1].depth);
                    }
                }
            }
        } else {
            assert(cl == cp);
            if depth_non_increasing(ord) {
                assert(depth_non_increasing(pre)) by {
                    assert forall|i: int, j: int| 0 <= i < j < pre.len() implies #[trigger] pre[i].depth >= #[trigger] pre[j].depth by {
                        assert(pre[i] == ord[i] && pre[j] == ord[j]);
                    }
                }
            }
        }
    }
}

/// What a scan converts, and in which order: only entries that were walked,
/// never the walked folder itself nor an entry the rules leave alone, leaf
/// first (depths never increase, so an entry is renamed before the folders
/// that contain it); and every entry looked at is either converted or
/// counted as skipped.
pub proof fn lemma_scan_plan_leaf_first(entries: Seq<WalkEntry>, root: Seq<char>, c: StickConfig)
    ensures
        depth_non_increasing(convert_list(leaf_first(entries), root, c)),
        forall|i: int| 0 <= i < convert_list(leaf_first(entries), root, c).len() ==> {
            let e = #[trigger] convert_list(leaf_first(entries), root, c)[i];
            &&& entries.contains(e)
            &&& e.path@ != root
            &&& !excluded(e.path@, e.is_symlink, e.is_dir, c)
        },
        scanned_count(leaf_first(entries), root)
            == convert_list(leaf_first(entries), root, c).len() + skipped_count_spec(leaf_first(entries), root, c),
{
    broadcast use vstd::seq_lib::group_to_multiset_ensures;
    let ord = leaf_first(entries);
    let cl = convert_list(ord, root, c);
    lemma_leaf_first_is_sorted_permutation(entries);
    lemma_convert_list_props(ord, root, c);
    assert forall|i: int| 0 <= i < cl.len() implies entries.contains(#[trigger] cl[i]) by {
        let k = choose|k: int| 0 <= k < ord.len() && cl[i] == ord[k];
        assert(ord.contains(ord[k]));
        assert(ord.to_multiset().count(cl[i]) > 0);
        assert(entries.to_multiset().count(cl[i]) > 0);
    }
}

/// Whether the walk stays out of an entry it has just met: a folder the
/// rules leave alone is handed to the scan (where it counts as skipped),
/// but nothing below it is walked. `walked_as_dir` says whether the walk
/// would enter the entry.
pub fn walk_prunes(entry: &WalkEntry, walked_as_dir: bool, config: &StickConfig) -> (b: bool)
    ensures
        b == (walked_as_dir && excluded(entry.path@, entry.is_symlink, entry.is_dir, *config)),
{
    walked_as_dir && should_exclude(entry.path.as_str(), entry.is_symlink, entry.is_dir, config)
}

/// What a scan of one folder will do, before any renaming.
#[derive(Debug)]
pub struct ScanPlan {
    /// Entries to convert, leaf first.
    pub to_convert: Vec<WalkEntry>,
    /// Entries looked at (all but the walked folder).
    pub total_scanned: usize,
    /// Entries left alone by the rules.
    pub skipped_count: usize,
}

proof fn lemma_counts_bounded(ord: Seq<WalkEntry>, root: Seq<char>, c: StickConfig)
    ensures
        skipped_count_spec(ord, root, c) <= scanned_count(ord, root) <= ord.len(),
    decreases ord.len(),
{
    if ord.len() > 0 {
        lemma_counts_bounded(ord.drop_last(), root, c);
    }
}

/// The plan of a scan of the folder `root` whose walk gave `entries`: the
/// entries are taken leaf first; the folder itself is passed over; every
/// other entry is counted, and either counted as skipped (when the rules
/// leave it alone) or listed for conversion.
pub fn plan_scan(root: &str, entries: &Vec<WalkEntry>, config: &StickConfig) -> (plan: ScanPlan)
    ensures
        plan.to_convert@ == convert_list(leaf_first(entries@), root@, *config),
        plan.total_scanned == scanned_count(leaf_first(entries@), root@),
        plan.skipped_count == skipped_count_spec(leaf_first(entries@), root@, *config),
{
    let ord = order_leaf_first(entries);
    let root_text = root.to_owned();
    let mut to_convert: Vec<WalkEntry> = Vec::new();
    let mut total: usize = 0;
    let mut skipped: usize = 0;
    let mut i: usize = 0;
    assert(ord@.subrange(0, 0) == Seq::<WalkEntry>::empty());
    while i < ord.len()
        invariant
            i <= ord@.len(),
            root_text@ == root@,
            to_convert@ == convert_list(ord@.subrange(0, i as int), root@, *config),
            total == scanned_count(ord@.subrange(0, i as int), root@),
            skipped == skipped_count_spec(ord@.subrange(0, i as int), root@, *config),
        decreases ord@.len() - i,
    {
        let ghost pre = ord@.subrange(0, i + 1);
        assert(pre.drop_last() == ord@.subrange(0, i as int));
        assert(pre.last() == ord@[i as int]);
        proof {
            lemma_counts_bounded(ord@.subrange(0, i as int), root@, *config);
        }
        let e = &ord[i];
        if !(e.path == root_text) {
            total = total + 1;
            if should_exclude(e.path.as_str(), e.is_symlink, e.is_dir, config) {
                skipped = skipped + 1;
            } else {
                to_convert.push(e.duplicate());
            }
        }
        i = i + 1;
    }
    assert(ord@.subrange(0, ord@.len() as int) == ord@);
    ScanPlan { to_convert, total_scanned: total, skipped_count: skipped }
}

impl ScanResult {
    /// A result that starts from a plan's counts, with nothing renamed or
    /// failed yet.
    pub fn from_plan(plan: &ScanPlan) -> (r: ScanResult)
        ensures
            r.renamed@.len() == 0,
            r.errors@.len() == 0,
            r.total_scanned == plan.total_scanned,
            r.skipped_count == plan.skipped_count,
    {
        ScanResult {
            renamed: Vec::new(),
            skipped_count: plan.skipped_count,
            errors: Vec::new(),
            total_scanned: plan.total_scanned,
        }
    }

    /// Records an entry that was renamed.
    pub fn record_renamed(&mut self, entry: RenameEntry)
        ensures
            final(self).renamed@ == old(self).renamed@.push(entry),
            final(self).errors@ == old(self).errors@,
            final(self).total_scanned == old(self).total_scanned,
            final(self).skipped_count == old(self).skipped_count,
    {
        self.renamed.push(entry);
    }

    /// Records an entry that failed, with its message.
    pub fn record_error(&mut self, message: String)
        ensures
            final(self).errors@ == old(self).errors@.push(message),
            final(self).renamed@ == old(self).renamed@,
            final(self).total_scanned == old(self).total_scanned,
            final(self).skipped_count == old(self).skipped_count,
    {
        self.errors.push(message);
    }
}

// ── Single paths reported by the watcher ─────────────────────────────────

/// What to do with a path that a file system event reported.
#[derive(Debug)]
pub enum SinglePathAction {
    /// Leave it: excluded, or its name on disk is already in NFC.
    Ignore,
    /// Convert the entry found on disk under this (real) name, in the same folder.
    NormalizeReal(String),
    /// Convert the path as reported (its real name could not be found).
    NormalizeGiven,
}

/// The decision for a reported path. Events may name a file in decomposed
/// form even when the disk holds the composed name, so the name really on
/// disk (`real_name`, found by the file's identity in its folder) decides:
/// an NFC name on disk is never renamed again.
pub open spec fn single_path_spec(
    p: Seq<char>,
    is_symlink: bool,
    is_dir: bool,
    real_name: Option<Seq<char>>,
    c: StickConfig,
) -> Option<Option<Seq<char>>> {
    if excluded(p, is_symlink, is_dir, c) {
        None
    } else {
        match real_name {
            Some(r) => if needs_nfc(r) { Some(Some(r)) } else { None },
            None => Some(None),
        }
    }
}

/// What the watcher does with one reported path (`None`: ignore it;
/// `Some(Some(name))`: convert the entry really named `name`;
/// `Some(None)`: convert the path as reported).
pub open spec fn action_view(a: SinglePathAction) -> Option<Option<Seq<char>>> {
    match a {
        SinglePathAction::Ignore => None,
        SinglePathAction::NormalizeReal(r) => Some(Some(r@)),
        SinglePathAction::NormalizeGiven => Some(None),
    }
}

/// Decides what to do with a path reported by a file system event
/// (see `single_path_spec`).
pub fn normalize_single_path(
    path: &str,
    is_symlink: bool,
    is_dir: bool,
    real_name: Option<String>,
    config: &StickConfig,
) -> (a: SinglePathAction)
    ensures
        action_view(a) == single_path_spec(path@, is_symlink, is_dir, opt_view(real_name), *config),
{
    if should_exclude(path, is_symlink, is_dir, config) {
        return SinglePathAction::Ignore;
    }
    match real_name {
        Some(r) => {
            if !is_nfd_string(r.as_str()) {
                SinglePathAction::Ignore
            } else {
                SinglePathAction::NormalizeReal(r)
            }
        },
        None => SinglePathAction::NormalizeGiven,
    }
}

/// Why a folder cannot be scanned.
#[derive(Debug)]
pub enum ScanRootError {
    /// Nothing is at the path.
    Missing(String),
    /// The path is not a folder.
    NotDirectory(String),
}

impl ScanRootError {
    /// The message shown for the error.
    pub fn message(&self) -> (m: String)
        ensures
            m@ == match self {
                ScanRootError::Missing(p) => "경로가 존재하지 않습니다: "@ + p@,
                ScanRootError::NotDirectory(p) => "디렉토리가 아닙니다: "@ + p@,
            },
    {
        match self {
            ScanRootError::Missing(p) => {
                let mut m = "경로가 존재하지 않습니다: ".to_owned();
                m.append(p.as_str());
                m
            },
            ScanRootError::NotDirectory(p) => {
                let mut m = "디렉토리가 아닙니다: ".to_owned();
                m.append(p.as_str());
                m
            },
        }
    }
}

/// A scan needs an existing folder: the error for a missing path or one
/// that is not a folder.
pub fn check_scan_root(path: &str, state: crate::config::PathState) -> (r: Result<(), ScanRootError>)
    ensures
        match state {
            crate::config::PathState::Missing => r matches Err(ScanRootError::Missing(p)) && p@ == path@,
            crate::config::PathState::NotDirectory => r matches Err(ScanRootError::NotDirectory(p)) && p@ == path@,
            crate::config::PathState::Directory => r is Ok,
        },
{
    match state {
        crate::config::PathState::Missing => Err(ScanRootError::Missing(path.to_owned())),
        crate::config::PathState::NotDirectory => Err(ScanRootError::NotDirectory(path.to_owned())),
        crate::config::PathState::Directory => Ok(()),
    }
}

} // verus!
