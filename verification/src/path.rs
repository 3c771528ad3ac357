//! Path texts: the pieces between slashes, the last name, its extension, and
//! joining, as Unix paths are read.

use vstd::prelude::*;
use crate::text::{chars_of, chars_equal, push_char, string_from_chars};

verus! {

/// The pieces of a path text between slashes, empty pieces included
/// (`"/a//b"` has the pieces `""`, `"a"`, `""`, `"b"`).
pub open spec fn path_pieces(p: Seq<char>) -> Seq<Seq<char>>
    decreases p.len(),
{
    if p.len() == 0 {
        seq![Seq::<char>::empty()]
    } else {
        let s = path_pieces(p.drop_last());
        if p.last() == '/' {
            s.push(Seq::<char>::empty())
        } else {
            s.update(s.len() - 1, s.last().push(p.last()))
        }
    }
}

/// A piece that names something: neither empty nor the current directory `.`.
pub open spec fn is_named_piece(s: Seq<char>) -> bool {
    s.len() > 0 && s != seq!['.']
}

/// A piece that names a child: named, and not the parent directory `..`.
pub open spec fn is_normal_piece(s: Seq<char>) -> bool {
    is_named_piece(s) && s != seq!['.', '.']
}

/// The last named piece, if any.
pub open spec fn last_named(pieces: Seq<Seq<char>>) -> Option<Seq<char>>
    decreases pieces.len(),
{
    if pieces.len() == 0 {
        None
    } else if is_named_piece(pieces.last()) {
        Some(pieces.last())
    } else {
        last_named(pieces.drop_last())
    }
}

/// The final name of a path (`Path::file_name`): the last named piece, unless
/// that piece is `..`; none for `/`, `.`, `..` or the empty path.
pub open spec fn file_name_of(p: Seq<char>) -> Option<Seq<char>> {
    match last_named(path_pieces(p)) {
        Some(s) => if s == seq!['.', '.'] { None } else { Some(s) },
        None => None,
    }
}

/// Some normal piece of the path is equal to `name`.
pub open spec fn has_component(p: Seq<char>, name: Seq<char>) -> bool {
    exists|i: int| 0 <= i < path_pieces(p).len() && is_normal_piece(#[trigger] path_pieces(p)[i])
        && path_pieces(p)[i] == name
}

/// The position of the last `.` in a name, or -1.
pub open spec fn last_dot(s: Seq<char>) -> int
    decreases s.len(),
{
    if s.len() == 0 {
        -1
    } else if s.last() == '.' {
        s.len() - 1
    } else {
        last_dot(s.drop_last())
    }
}

/// The extension of a file name (`Path::extension`): what follows the last
/// dot, unless that dot starts the name or there is none.
pub open spec fn extension_of_name(s: Seq<char>) -> Option<Seq<char>> {
    if s == seq!['.', '.'] || last_dot(s) <= 0 {
        None
    } else {
        Some(s.subrange(last_dot(s) + 1, s.len() as int))
    }
}

/// The stem of a file name (`Path::file_stem`): what precedes the last dot,
/// or the whole name when the extension is none.
pub open spec fn stem_of_name(s: Seq<char>) -> Seq<char> {
    if s == seq!['.', '.'] || last_dot(s) <= 0 {
        s
    } else {
        s.subrange(0, last_dot(s))
    }
}

/// `base` joined with `seg` (`PathBuf::push`): an absolute `seg` replaces
/// `base`; otherwise a slash is put between them unless `base` is empty or
/// already ends in one.
pub open spec fn join_spec(base: Seq<char>, seg: Seq<char>) -> Seq<char> {
    if seg.len() > 0 && seg[0] == '/' {
        seg
    } else if base.len() > 0 && base.last() != '/' {
        base + seq!['/'] + seg
    } else {
        base + seg
    }
}

/// The view of an optional string.
pub open spec fn opt_view(o: Option<String>) -> Option<Seq<char>> {
    match o {
        Some(s) => Some(s@),
        None => None,
    }
}

pub proof fn lemma_chars_deep_view(v: Vec<char>)
    ensures
        v.deep_view() == v@,
{
    assert(v.deep_view() =~= v@);
}

pub proof fn lemma_pieces_nonempty(p: Seq<char>)
    ensures
        path_pieces(p).len() >= 1,
    decreases p.len(),
{
    if p.len() > 0 {
        lemma_pieces_nonempty(p.drop_last());
    }
}

/// The pieces of a path, split at each slash.
pub fn split_pieces(p: &Vec<char>) -> (r: Vec<Vec<char>>)
    ensures
        r.deep_view() == path_pieces(p@),
{
    let mut done: Vec<Vec<char>> = Vec::new();
    let mut cur: Vec<char> = Vec::new();
    let mut i: usize = 0;
    assert(p@.subrange(0, 0) == Seq::<char>::empty());
    assert(done.deep_view().push(cur@) == path_pieces(p@.subrange(0, 0)));
    while i < p.len()
        invariant
            i <= p.len(),
            done.deep_view().push(cur@) == path_pieces(p@.subrange(0, i as int)),
        decreases p.len() - i,
    {
        let c = p[i];
        proof {
            let q = p@.subrange(0, i + 1);
            assert(q.drop_last() == p@.subrange(0, i as int));
            assert(q.last() == c);
            lemma_pieces_nonempty(p@.subrange(0, i as int));
        }
        let ghost old_done = done.deep_view();
        let ghost old_cur = cur@;
        if c == '/' {
            proof { lemma_chars_deep_view(cur); }
            let ghost pushed = cur;
            let ghost old_vec = done@;
            done.push(cur);
            cur = Vec::new();
            assert(done@ == old_vec.push(pushed));
            assert(done.deep_view() =~= old_done.push(old_cur));
        } else {
            cur.push(c);
            assert(done.deep_view() == old_done);
            assert(old_done.push(old_cur).update(old_done.len() as int, old_cur.push(c))
                == old_done.push(old_cur.push(c)));
        }
        i = i + 1;
    }
    let ghost before = done.deep_view();
    let ghost last_piece = cur@;
    let ghost pushed = cur;
    let ghost old_vec = done@;
    proof { lemma_chars_deep_view(cur); }
    done.push(cur);
    assert(done@ == old_vec.push(pushed));
    assert(done.deep_view() =~= before.push(last_piece));
    assert(p@.subrange(0, p.len() as int) == p@);
    done
}

/// The final name of a path, if it has one.
pub fn file_name(path: &str) -> (r: Option<String>)
    ensures
        opt_view(r) == file_name_of(path@),
{
    let chars = chars_of(path);
    let pieces = split_pieces(&chars);
    let mut i: usize = pieces.len();
    let dot: Vec<char> = vec!['.'];
    let dotdot: Vec<char> = vec!['.', '.'];
    assert(pieces.deep_view().subrange(0, i as int) == pieces.deep_view());
    while i > 0
        invariant
            i <= pieces.len(),
            pieces.deep_view() == path_pieces(path@),
            dot@ == seq!['.'],
            dotdot@ == seq!['.', '.'],
            last_named(pieces.deep_view()) == last_named(pieces.deep_view().subrange(0, i as int)),
        decreases i,
    {
        let piece = &pieces[i - 1];
        let ghost pre = pieces.deep_view().subrange(0, i as int);
        assert(pre.drop_last() == pieces.deep_view().subrange(0, i - 1));
        assert(pre.last() == piece@);
        if piece.len() > 0 && !chars_equal(piece, &dot) {
            if chars_equal(piece, &dotdot) {
                return None;
            }
            return Some(string_from_chars(piece));
        }
        i = i - 1;
    }
    None
}

/// The position of the last `.` in a name.
pub fn find_last_dot(s: &Vec<char>) -> (r: Option<usize>)
    ensures
        match r {
            Some(k) => last_dot(s@) == k as int && k < s.len(),
            None => last_dot(s@) == -1,
        },
{
    let mut found: Option<usize> = None;
    let mut i: usize = 0;
    assert(s@.subrange(0, 0) == Seq::<char>::empty());
    while i < s.len()
        invariant
            i <= s.len(),
            match found {
                Some(k) => last_dot(s@.subrange(0, i as int)) == k as int && k < i,
                None => last_dot(s@.subrange(0, i as int)) == -1,
            },
        decreases s.len() - i,
    {
        assert(s@.subrange(0, i + 1).drop_last() == s@.subrange(0, i as int));
        if s[i] == '.' {
            found = Some(i);
        }
        i = i + 1;
    }
    assert(s@.subrange(0, s.len() as int) == s@);
    found
}

/// The extension of a file name, if it has one.
pub fn extension_of(name: &Vec<char>) -> (r: Option<Vec<char>>)
    ensures
        match r {
            Some(e) => extension_of_name(name@) == Some(e@),
            None => extension_of_name(name@) is None,
        },
{
    let dotdot: Vec<char> = vec!['.', '.'];
    if chars_equal(name, &dotdot) {
        return None;
    }
    match find_last_dot(name) {
        Some(k) => {
            if k == 0 {
                None
            } else {
                let mut e: Vec<char> = Vec::new();
                let mut j: usize = k + 1;
                while j < name.len()
                    invariant
                        k < name.len(),
                        k + 1 <= j <= name.len(),
                        e@ == name@.subrange(k + 1, j as int),
                    decreases name.len() - j,
                {
                    e.push(name[j]);
                    j = j + 1;
                }
                Some(e)
            }
        },
        None => None,
    }
}

/// The stem of a file name.
pub fn stem_of(name: &Vec<char>) -> (r: Vec<char>)
    ensures
        r@ == stem_of_name(name@),
{
    let dotdot: Vec<char> = vec!['.', '.'];
    if chars_equal(name, &dotdot) {
        return name.clone();
    }
    match find_last_dot(name) {
        Some(k) => {
            if k == 0 {
                name.clone()
            } else {
                let mut e: Vec<char> = Vec::new();
                let mut j: usize = 0;
                while j < k
                    invariant
                        k < name.len(),
                        j <= k,
                        e@ == name@.subrange(0, j as int),
                    decreases k - j,
                {
                    e.push(name[j]);
                    j = j + 1;
                }
                e
            }
        },
        None => name.clone(),
    }
}

/// `base` joined with `seg`, as `Path::join` does on Unix.
pub fn join_path(base: &str, seg: &str) -> (r: String)
    ensures
        r@ == join_spec(base@, seg@),
{
    let b = chars_of(base);
    let s = chars_of(seg);
    if s.len() > 0 && s[0] == '/' {
        return string_from_chars(&s);
    }
    let mut out = string_from_chars(&b);
    if b.len() > 0 && b[b.len() - 1] != '/' {
        push_char(&mut out, '/');
    }
    out.append(seg);
    out
}

} // verus!
