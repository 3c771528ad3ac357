//! Log housekeeping: which old daily logs are compressed, and the size of
//! the log folder.

use vstd::prelude::*;
use crate::text::{chars_lt, chars_of, has_prefix, lex_lt, starts_with_chars};

verus! {

/// The log file of the day `today` (`stick.log.<date>`).
pub open spec fn today_log_spec(today: Seq<char>) -> Seq<char> {
    "stick.log."@ + today
}

/// A decimal digit.
pub open spec fn is_digit(c: char) -> bool {
    '0' <= c && c <= '9'
}

/// The number written by two digits.
pub open spec fn two_digits(a: char, b: char) -> int {
    (a as int - '0' as int) * 10 + (b as int - '0' as int)
}

/// A date as the daily logs carry it: `YYYY-MM-DD`, with a month from 01
/// to 12 and a day from 01 to 31. Between such dates, the text order is
/// the order of the days.
pub open spec fn is_log_date(d: Seq<char>) -> bool {
    &&& d.len() == 10
    &&& is_digit(d[0]) && is_digit(d[1]) && is_digit(d[2]) && is_digit(d[3])
    &&& d[4] == '-'
    &&& is_digit(d[5]) && is_digit(d[6])
    &&& d[7] == '-'
    &&& is_digit(d[8]) && is_digit(d[9])
    &&& 1 <= two_digits(d[5], d[6]) <= 12
    &&& 1 <= two_digits(d[8], d[9]) <= 31
}

/// The prefix of the daily log files.
pub open spec fn log_prefix() -> Seq<char> {
    "stick.log."@
}

/// What follows the prefix in a daily log's name.
pub open spec fn date_part(name: Seq<char>) -> Seq<char> {
    name.subrange(log_prefix().len() as int, name.len() as int)
}

/// A file in the log folder is compressed when it is a daily log
/// (`stick.log.YYYY-MM-DD`) of a day before `today` (`YYYY-MM-DD`).
pub open spec fn should_compress_spec(name: Seq<char>, today: Seq<char>) -> bool {
    &&& has_prefix(name, log_prefix())
    &&& is_log_date(date_part(name))
    &&& lex_lt(date_part(name), today)
}

/// The year of a `YYYY-MM-DD` date.
pub open spec fn year_of(d: Seq<char>) -> int {
    two_digits(d[0], d[1]) * 100 + two_digits(d[2], d[3])
}

/// The month of a `YYYY-MM-DD` date.
pub open spec fn month_of(d: Seq<char>) -> int {
    two_digits(d[5], d[6])
}

/// The day of the month of a `YYYY-MM-DD` date.
pub open spec fn day_of(d: Seq<char>) -> int {
    two_digits(d[8], d[9])
}

/// The day `d` comes before the day `t`: an earlier year, or the same year
/// and an earlier month, or the same month and an earlier day.
pub open spec fn earlier_day(d: Seq<char>, t: Seq<char>) -> bool {
    ||| year_of(d) < year_of(t)
    ||| year_of(d) == year_of(t) && month_of(d) < month_of(t)
    ||| year_of(d) == year_of(t) && month_of(d) == month_of(t) && day_of(d) < day_of(t)
}

/// `a` before `b` in text order, looking from position `i` on (both of the
/// same length).
spec fn lt_from(a: Seq<char>, b: Seq<char>, i: int) -> bool
    decreases a.len() - i,
{
    if i < 0 || i >= a.len() || i >= b.len() {
        false
    } else if a[i] != b[i] {
        (a[i] as u32) < (b[i] as u32)
    } else {
        lt_from(a, b, i + 1)
    }
}

proof fn lemma_lex_lt_from(a: Seq<char>, b: Seq<char>, i: int)
    requires
        a.len() == b.len(),
        0 <= i <= a.len(),
    ensures
        lex_lt(a.subrange(i, a.len() as int), b.subrange(i, b.len() as int)) == lt_from(a, b, i),
    decreases a.len() - i,
{
    let x = a.subrange(i, a.len() as int);
    let y = b.subrange(i, b.len() as int);
    if i < a.len() {
        lemma_lex_lt_from(a, b, i + 1);
        assert(x.drop_first() == a.subrange(i + 1, a.len() as int));
        assert(y.drop_first() == b.subrange(i + 1, b.len() as int));
        assert(x[0] == a[i] && y[0] == b[i]);
    }
}

proof fn lemma_date_text_order(d: Seq<char>, t: Seq<char>)
    requires
        is_log_date(d),
        is_log_date(t),
    ensures
        lex_lt(d, t) == earlier_day(d, t),
{
    lemma_lex_lt_from(d, t, 0);
    assert(d.subrange(0, d.len() as int) == d);
    assert(t.subrange(0, t.len() as int) == t);
    reveal_with_fuel(lt_from, 11);
}

/// Which daily logs are compressed: for every log `stick.log.D` with a date
/// `D`, on a day `T`, the log is compressed exactly when `D` is an earlier
/// day than `T` (any earlier day, in the same month or not; never today's).
pub proof fn lemma_compress_earlier_days(d: Seq<char>, t: Seq<char>)
    requires
        is_log_date(d),
        is_log_date(t),
    ensures
        should_compress_spec("stick.log."@ + d, t) == earlier_day(d, t),
        !should_compress_spec("stick.log."@ + t, t),
{
    let p = "stick.log."@;
    assert((p + d).subrange(0, p.len() as int) == p);
    assert((p + d).subrange(p.len() as int, (p + d).len() as int) == d);
    assert((p + t).subrange(0, p.len() as int) == p);
    assert((p + t).subrange(p.len() as int, (p + t).len() as int) == t);
    lemma_date_text_order(d, t);
    lemma_date_text_order(t, t);
}

/// Only daily logs of earlier days are compressed: a compressed name is
/// `stick.log.` followed by a well-formed date before today.
pub proof fn lemma_compressed_are_earlier_logs(name: Seq<char>, t: Seq<char>)
    requires
        is_log_date(t),
        should_compress_spec(name, t),
    ensures
        name == "stick.log."@ + date_part(name),
        is_log_date(date_part(name)),
        earlier_day(date_part(name), t),
{
    let p = "stick.log."@;
    assert(name == p + date_part(name));
    lemma_date_text_order(date_part(name), t);
}

/// The name of today's log file.
pub fn today_log_name(today: &str) -> (r: String)
    ensures
        r@ == today_log_spec(today@),
{
    let mut r = "stick.log.".to_owned();
    r.append(today);
    r
}

fn digit(c: char) -> (b: bool)
    ensures
        b == is_digit(c),
{
    '0' <= c && c <= '9'
}

fn in_range(a: char, b: char, lo: u32, hi: u32) -> (r: bool)
    requires
        is_digit(a),
        is_digit(b),
    ensures
        r == (lo <= two_digits(a, b) <= hi),
{
    let v: u32 = (a as u32 - '0' as u32) * 10 + (b as u32 - '0' as u32);
    lo <= v && v <= hi
}

fn date_ok(d: &Vec<char>) -> (b: bool)
    ensures
        b == is_log_date(d@),
{
    if d.len() != 10 {
        return false;
    }
    if !(digit(d[0]) && digit(d[1]) && digit(d[2]) && digit(d[3])) {
        return false;
    }
    if !(d[4] == '-' && digit(d[5]) && digit(d[6]) && d[7] == '-' && digit(d[8]) && digit(d[9])) {
        return false;
    }
    in_range(d[5], d[6], 1, 12) && in_range(d[8], d[9], 1, 31)
}

/// Whether the log file `name` is compressed on the day `today`: a daily
/// log of an earlier day.
pub fn should_compress(name: &str, today: &str) -> (b: bool)
    ensures
        b == should_compress_spec(name@, today@),
{
    let v = chars_of(name);
    let prefix = chars_of("stick.log.");
    if !starts_with_chars(&v, &prefix) {
        return false;
    }
    let mut date: Vec<char> = Vec::new();
    let mut i: usize = prefix.len();
    while i < v.len()
        invariant
            prefix@.len() <= i <= v@.len(),
            date@ == v@.subrange(prefix@.len() as int, i as int),
        decreases v@.len() - i,
    {
        date.push(v[i]);
        i = i + 1;
    }
    if !date_ok(&date) {
        return false;
    }
    let t = chars_of(today);
    chars_lt(&date, &t)
}

/// Where a compressed log goes: the path with `.gz` added.
pub fn compressed_path(path: &str) -> (r: String)
    ensures
        r@ == path@ + ".gz"@,
{
    let mut r = path.to_owned();
    r.append(".gz");
    r
}

/// The total of the sizes.
pub open spec fn total(sizes: Seq<u64>) -> nat
    decreases sizes.len(),
{
    if sizes.len() == 0 { 0 } else { total(sizes.drop_last()) + sizes.last() as nat }
}

proof fn lemma_total_prefix(sizes: Seq<u64>, i: int)
    requires
        0 <= i <= sizes.len(),
    ensures
        total(sizes.subrange(0, i)) <= total(sizes),
    decreases sizes.len() - i,
{
    if i < sizes.len() {
        lemma_total_prefix(sizes, i + 1);
        assert(sizes.subrange(0, i + 1).drop_last() == sizes.subrange(0, i));
    } else {
        assert(sizes.subrange(0, i) == sizes);
    }
}

/// The size of the log folder: the total size of the files in it (at any
/// depth), given their sizes.
pub fn get_dir_size(file_sizes: &Vec<u64>) -> (size: u64)
    requires
        total(file_sizes@) <= u64::MAX,
    ensures
        size == total(file_sizes@),
{
    let mut size: u64 = 0;
    let mut i: usize = 0;
    assert(file_sizes@.subrange(0, 0) == Seq::<u64>::empty());
    while i < file_sizes.len()
        invariant
            i <= file_sizes@.len(),
            total(file_sizes@) <= u64::MAX,
            size == total(file_sizes@.subrange(0, i as int)),
        decreases file_sizes@.len() - i,
    {
        proof {
            assert(file_sizes@.subrange(0, i + 1).drop_last() == file_sizes@.subrange(0, i as int));
            lemma_total_prefix(file_sizes@, i + 1);
        }
        size = size + file_sizes[i];
        i = i + 1;
    }
    assert(file_sizes@.subrange(0, file_sizes@.len() as int) == file_sizes@);
    size
}

} // verus!
