//! Update probing, the computing half: parsing version numbers and
//! ahead/behind counts out of command output, picking the highest published
//! tag, and deciding whether an update is worth announcing. The commands
//! themselves run outside the library, which only ever sees their text.

use vstd::prelude::*;
use crate::text::{chars_of, has_prefix, is_space, string_from_chars, sub_chars, trim_chars, trim_of};

verus! {

/// The character is a decimal digit.
pub open spec fn is_digit(c: char) -> bool {
    48 <= c as u32 && c as u32 <= 57
}

/// Every character is a decimal digit.
pub open spec fn all_digits(s: Seq<char>) -> bool {
    forall|i: int| 0 <= i < s.len() ==> is_digit(#[trigger] s[i])
}

/// The numeric value of one digit character.
pub open spec fn digit_val(c: char) -> int {
    c as u32 - 48
}

/// The value of a digit string, most significant first.
pub open spec fn dec_val(s: Seq<char>) -> int
    decreases s.len(),
{
    if s.len() == 0 {
        0
    } else {
        dec_val(s.drop_last()) * 10 + digit_val(s.last())
    }
}

/// The digits of a decimal literal, with an optional leading plus sign
/// stripped.
pub open spec fn digits_of(s: Seq<char>) -> Seq<char> {
    if s.len() > 0 && s[0] == '+' {
        s.drop_first()
    } else {
        s
    }
}

/// The text denotes an unsigned decimal number that fits the given bound.
pub open spec fn parses_dec(s: Seq<char>, max: int) -> bool {
    let d = digits_of(s);
    d.len() > 0 && all_digits(d) && dec_val(d) <= max
}

proof fn lemma_dec_val_nonneg(s: Seq<char>)
    requires
        all_digits(s),
    ensures
        dec_val(s) >= 0,
    decreases s.len(),
{
    if s.len() > 0 {
        assert(all_digits(s.drop_last()));
        lemma_dec_val_nonneg(s.drop_last());
    }
}

proof fn lemma_dec_val_prefix(s: Seq<char>, j: int)
    requires
        all_digits(s),
        0 <= j <= s.len(),
    ensures
        dec_val(s.subrange(0, j)) <= dec_val(s),
    decreases s.len() - j,
{
    if j == s.len() {
        assert(s.subrange(0, j) =~= s);
    } else {
        let a = s.subrange(0, j);
        let b = s.subrange(0, j + 1);
        assert(b.drop_last() =~= a);
        assert(all_digits(a));
        lemma_dec_val_nonneg(a);
        assert(is_digit(s[j]));
        lemma_dec_val_prefix(s, j + 1);
    }
}

/// Parses an unsigned decimal number (optional leading plus), or nothing
/// when the text is not such a number or it overflows.
pub fn parse_u64_chars(v: &Vec<char>) -> (r: Option<u64>)
    ensures
        match r {
            Some(n) => parses_dec(v@, u64::MAX as int) && n as int == dec_val(digits_of(v@)),
            None => !parses_dec(v@, u64::MAX as int),
        },
{
    let start: usize = if v.len() > 0 && v[0] == '+' {
        1
    } else {
        0
    };
    let ghost d = digits_of(v@);
    proof {
        assert(d =~= v@.subrange(start as int, v@.len() as int));
    }
    if start == v.len() {
        return None;
    }
    let mut acc: u64 = 0;
    let mut i: usize = start;
    while i < v.len()
        invariant
            start <= i <= v@.len(),
            start < v@.len(),
            d == digits_of(v@),
            d == v@.subrange(start as int, v@.len() as int),
            forall|k: int| start <= k < i ==> is_digit(#[trigger] v@[k]),
            acc as int == dec_val(v@.subrange(start as int, i as int)),
        decreases v@.len() - i,
    {
        let c = v[i];
        let cu = c as u32;
        if !(48 <= cu && cu <= 57) {
            proof {
                assert(d[i - start] == v@[i as int]);
                assert(!all_digits(d)) by {
                    assert(!is_digit(d[i - start]));
                }
            }
            return None;
        }
        let digit: u64 = (cu - 48) as u64;
        proof {
            let a = v@.subrange(start as int, i as int);
            let b = v@.subrange(start as int, i + 1);
            assert(b.drop_last() =~= a);
            assert(b.last() == v@[i as int]);
        }
        let acc10 = match acc.checked_mul(10) {
            Some(x) => x,
            None => {
                proof {
                    lemma_parse_overflow(v@, d, start as int, i as int);
                }
                return None;
            },
        };
        let acc2 = match acc10.checked_add(digit) {
            Some(x) => x,
            None => {
                proof {
                    lemma_parse_overflow(v@, d, start as int, i as int);
                }
                return None;
            },
        };
        acc = acc2;
        i += 1;
    }
    proof {
        assert(forall|k: int| 0 <= k < d.len() ==> d[k] == v@[start + k]);
        assert(all_digits(d));
        assert(v@.subrange(start as int, v@.len() as int) =~= d);
    }
    Some(acc)
}

proof fn lemma_parse_overflow(s: Seq<char>, d: Seq<char>, start: int, i: int)
    requires
        0 <= start <= i < s.len(),
        d == digits_of(s),
        d == s.subrange(start, s.len() as int),
        forall|k: int| start <= k <= i ==> is_digit(#[trigger] s[k]),
        dec_val(s.subrange(start, i)) * 10 + digit_val(s[i]) > u64::MAX as int,
    ensures
        !parses_dec(s, u64::MAX as int),
{
    if all_digits(d) {
        let b = s.subrange(start, i + 1);
        assert(b.drop_last() =~= s.subrange(start, i));
        assert(b.last() == s[i]);
        assert(dec_val(b) > u64::MAX as int);
        assert(b =~= d.subrange(0, i + 1 - start));
        lemma_dec_val_prefix(d, i + 1 - start);
    }
}

/// The index of the first occurrence of `c` at or after `from`, or the
/// length when there is none.
pub open spec fn first_char_from(s: Seq<char>, from: int, c: char) -> int
    decreases s.len() - from,
{
    if from >= s.len() {
        s.len() as int
    } else if s[from] == c {
        from
    } else {
        first_char_from(s, from + 1, c)
    }
}

/// The first occurrence of a character lies between the search start and
/// the end of the text.
pub broadcast proof fn lemma_first_char_bounds(s: Seq<char>, from: int, c: char)
    requires
        0 <= from <= s.len(),
    ensures
        from <= #[trigger] first_char_from(s, from, c) <= s.len(),
    decreases s.len() - from,
{
    if from < s.len() && s[from] != c {
        lemma_first_char_bounds(s, from + 1, c);
    }
}

/// Finds the first occurrence of `c` at or after `from`.
pub fn first_char_from_exec(v: &Vec<char>, from: usize, c: char) -> (r: usize)
    requires
        from <= v@.len(),
    ensures
        r == first_char_from(v@, from as int, c),
        from <= r <= v@.len(),
        r < v@.len() ==> v@[r as int] == c,
    decreases v@.len() - from,
{
    let mut i: usize = from;
    while i < v.len()
        invariant
            from <= i <= v@.len(),
            first_char_from(v@, from as int, c) == first_char_from(v@, i as int, c),
        decreases v@.len() - i,
    {
        if v[i] == c {
            return i;
        }
        i += 1;
    }
    i
}

/// A version triple compares lexicographically, major first.
pub open spec fn version_gt(l: (u64, u64, u64), c: (u64, u64, u64)) -> bool {
    ||| l.0 > c.0
    ||| (l.0 == c.0 && l.1 > c.1)
    ||| (l.0 == c.0 && l.1 == c.1 && l.2 > c.2)
}

/// What `parse_version` yields: the first three dot-separated fields of
/// the trimmed text, each an unsigned decimal number; nothing when a field
/// is missing or not a number.
pub open spec fn parse_version_spec(s: Seq<char>) -> Option<(u64, u64, u64)> {
    let t = trim_of(s);
    let e1 = first_char_from(t, 0, '.');
    if !parses_dec(t.subrange(0, e1), u64::MAX as int) {
        None
    } else if e1 >= t.len() {
        None
    } else {
        let e2 = first_char_from(t, e1 + 1, '.');
        if !parses_dec(t.subrange(e1 + 1, e2), u64::MAX as int) {
            None
        } else if e2 >= t.len() {
            None
        } else {
            let e3 = first_char_from(t, e2 + 1, '.');
            if !parses_dec(t.subrange(e2 + 1, e3), u64::MAX as int) {
                None
            } else {
                Some(
                    (
                        dec_val(digits_of(t.subrange(0, e1))) as u64,
                        dec_val(digits_of(t.subrange(e1 + 1, e2))) as u64,
                        dec_val(digits_of(t.subrange(e2 + 1, e3))) as u64,
                    ),
                )
            }
        }
    }
}

/// Parses "major.minor.patch" out of the trimmed text; further fields are
/// ignored.
pub fn parse_version(v: &str) -> (r: Option<(u64, u64, u64)>)
    ensures
        r == parse_version_spec(v@),
{
    let cv = chars_of(v);
    let w = trim_chars(&cv);
    let e1 = first_char_from_exec(&w, 0, '.');
    let a = match parse_u64_chars(&sub_chars(&w, 0, e1)) {
        Some(a) => a,
        None => {
            return None;
        },
    };
    if e1 >= w.len() {
        return None;
    }
    let e2 = first_char_from_exec(&w, e1 + 1, '.');
    let b = match parse_u64_chars(&sub_chars(&w, e1 + 1, e2)) {
        Some(b) => b,
        None => {
            return None;
        },
    };
    if e2 >= w.len() {
        return None;
    }
    let e3 = first_char_from_exec(&w, e2 + 1, '.');
    let c = match parse_u64_chars(&sub_chars(&w, e2 + 1, e3)) {
        Some(c) => c,
        None => {
            return None;
        },
    };
    Some((a, b, c))
}

/// Whether `latest` names a strictly newer version than `current`;
/// nothing when either fails to parse.
pub fn is_newer(latest: &str, current: &str) -> (r: Option<bool>)
    ensures
        r == (match (parse_version_spec(latest@), parse_version_spec(current@)) {
            (Some(l), Some(c)) => Some(version_gt(l, c)),
            _ => None::<bool>,
        }),
{
    let l = match parse_version(latest) {
        Some(l) => l,
        None => {
            return None;
        },
    };
    let c = match parse_version(current) {
        Some(c) => c,
        None => {
            return None;
        },
    };
    let gt = l.0 > c.0 || (l.0 == c.0 && l.1 > c.1) || (l.0 == c.0 && l.1 == c.1 && l.2 > c.2);
    Some(gt)
}

/// A line with a trailing carriage return removed.
pub open spec fn strip_cr(l: Seq<char>) -> Seq<char> {
    if l.len() > 0 && l.last() == '\r' {
        l.drop_last()
    } else {
        l
    }
}

/// The lines of a text, split at newlines, carriage returns stripped; a
/// trailing newline yields no empty final line.
pub open spec fn lines_of(s: Seq<char>) -> Seq<Seq<char>>
    decreases s.len() via lines_of_decreases
{
    if s.len() == 0 {
        Seq::empty()
    } else {
        let e = first_char_from(s, 0, '\n');
        let line = strip_cr(s.subrange(0, e));
        if e >= s.len() {
            seq![line]
        } else {
            seq![line] + lines_of(s.subrange(e + 1, s.len() as int))
        }
    }
}

#[via_fn]
proof fn lines_of_decreases(s: Seq<char>) {
    if s.len() > 0 {
        lemma_first_char_bounds(s, 0, '\n');
    }
}

proof fn lemma_first_char_shift(s: Seq<char>, pos: int, from: int, c: char)
    requires
        0 <= pos,
        0 <= from,
        pos + from <= s.len(),
    ensures
        first_char_from(s.subrange(pos, s.len() as int), from, c) == first_char_from(
            s,
            pos + from,
            c,
        ) - pos,
    decreases s.len() - pos - from,
{
    let t = s.subrange(pos, s.len() as int);
    if from >= t.len() {
    } else if t[from] == c {
    } else {
        lemma_first_char_shift(s, pos, from + 1, c);
    }
}

/// Splits a text into its lines, as character vectors.
pub fn split_lines(s: &str) -> (r: Vec<Vec<char>>)
    ensures
        r@.map_values(|l: Vec<char>| l@) == lines_of(s@),
{
    let cv = chars_of(s);
    let n = cv.len();
    let mut out: Vec<Vec<char>> = Vec::new();
    if n == 0 {
        proof {
            assert(out@.map_values(|l: Vec<char>| l@) =~= lines_of(s@));
        }
        return out;
    }
    let mut pos: usize = 0;
    proof {
        assert(out@.map_values(|l: Vec<char>| l@) =~= Seq::<Seq<char>>::empty());
        assert(s@.subrange(0, n as int) =~= s@);
    }
    while pos < n
        invariant
            0 <= pos <= n,
            cv@ == s@,
            n == cv@.len(),
            lines_of(s@) == out@.map_values(|l: Vec<char>| l@) + lines_of(
                s@.subrange(pos as int, n as int),
            ),
        decreases n - pos,
    {
        let e = first_char_from_exec(&cv, pos, '\n');
        let line_end: usize = if e > pos && cv[e - 1] == '\r' {
            e - 1
        } else {
            e
        };
        let line = sub_chars(&cv, pos, line_end);
        let ghost prev = out@;
        out.push(line);
        proof {
            let suffix = s@.subrange(pos as int, n as int);
            lemma_first_char_shift(s@, pos as int, 0, '\n');
            let el = e - pos;
            assert(suffix.subrange(0, el) =~= s@.subrange(pos as int, e as int));
            if e > pos && s@[e - 1] == '\r' {
                assert(line@ =~= strip_cr(suffix.subrange(0, el)));
            } else {
                assert(line@ =~= strip_cr(suffix.subrange(0, el)));
            }
            let f = |l: Vec<char>| l@;
            assert(out@.map_values(f) =~= prev.map_values(f).push(line@));
            if e < n {
                assert(suffix.subrange(el + 1, suffix.len() as int) =~= s@.subrange(
                    e + 1,
                    n as int,
                ));
                assert(lines_of(suffix) == seq![line@] + lines_of(s@.subrange(e + 1, n as int)));
                assert(prev.map_values(f).push(line@) + lines_of(s@.subrange(e + 1, n as int))
                    =~= prev.map_values(f) + lines_of(suffix));
            } else {
                assert(lines_of(suffix) == seq![line@]);
                assert(prev.map_values(f).push(line@) + lines_of(s@.subrange(n as int, n as int))
                    =~= prev.map_values(f) + lines_of(suffix)) by {
                    assert(lines_of(s@.subrange(n as int, n as int)) =~= Seq::<Seq<char>>::empty());
                }
            }
        }
        if e >= n {
            pos = n;
        } else {
            pos = e + 1;
        }
    }
    proof {
        assert(lines_of(s@.subrange(n as int, n as int)) =~= Seq::<Seq<char>>::empty());
        assert(out@.map_values(|l: Vec<char>| l@) + lines_of(s@.subrange(n as int, n as int))
            =~= out@.map_values(|l: Vec<char>| l@));
    }
    out
}

/// What one line yields for a quoted "version" field: the text between
/// the quotes after the first colon following the first occurrence of the
/// quoted key; nothing when any of those pieces is missing.
pub open spec fn line_version(l: Seq<char>) -> Option<Seq<char>> {
    let needle = "\"version\""@;
    if !crate::text::contains_seq(l, needle) {
        None
    } else {
        let after = l.subrange(crate::rows::first_match(l, needle), l.len() as int);
        let j = first_char_from(after, 0, ':');
        if j >= after.len() {
            None
        } else {
            let rest = trim_of(after.subrange(j + 1, after.len() as int));
            if rest.len() > 0 && rest[0] == '"' {
                let k = first_char_from(rest, 1, '"');
                if k < rest.len() {
                    Some(rest.subrange(1, k))
                } else {
                    None
                }
            } else {
                None
            }
        }
    }
}

fn line_version_exec(l: &Vec<char>) -> (r: Option<Vec<char>>)
    ensures
        match r {
            Some(v) => line_version(l@) == Some(v@),
            None => line_version(l@) is None,
        },
{
    let needle = chars_of("\"version\"");
    match crate::text::find_sub(l, &needle) {
        None => None,
        Some(i) => {
            proof {
                crate::rows::lemma_first_match_unique(l@, needle@, i as int);
            }
            let after = sub_chars(l, i, l.len());
            let j = first_char_from_exec(&after, 0, ':');
            if j >= after.len() {
                return None;
            }
            let rest0 = sub_chars(&after, j + 1, after.len());
            let rest = trim_chars(&rest0);
            if rest.len() > 0 && rest[0] == '"' {
                let k = first_char_from_exec(&rest, 1, '"');
                if k < rest.len() {
                    Some(sub_chars(&rest, 1, k))
                } else {
                    None
                }
            } else {
                None
            }
        },
    }
}

/// The first line that yields a version field, scanned top to bottom.
pub open spec fn first_line_version(ls: Seq<Seq<char>>) -> Option<Seq<char>>
    decreases ls.len(),
{
    if ls.len() == 0 {
        None
    } else {
        match line_version(ls.first()) {
            Some(v) => Some(v),
            None => first_line_version(ls.drop_first()),
        }
    }
}

/// Scans JSON-ish text, line by line, for its first quoted "version"
/// field.
pub fn extract_json_version(text: &str) -> (r: Option<String>)
    ensures
        match r {
            Some(v) => first_line_version(lines_of(text@)) == Some(v@),
            None => first_line_version(lines_of(text@)) is None,
        },
{
    let lines = split_lines(text);
    let ghost ls = lines_of(text@);
    let mut i: usize = 0;
    proof {
        assert(ls.subrange(0, ls.len() as int) =~= ls);
    }
    while i < lines.len()
        invariant
            i <= lines@.len(),
            ls == lines_of(text@),
            lines@.map_values(|l: Vec<char>| l@) == ls,
            first_line_version(ls) == first_line_version(
                ls.subrange(i as int, ls.len() as int),
            ),
        decreases lines@.len() - i,
    {
        let ghost sub = ls.subrange(i as int, ls.len() as int);
        proof {
            assert(sub.first() == ls[i as int]);
            assert(ls[i as int] == lines@[i as int]@);
            assert(sub.drop_first() =~= ls.subrange(i + 1, ls.len() as int));
        }
        match line_version_exec(&lines[i]) {
            Some(v) => {
                proof {
                    assert(first_line_version(sub) == Some(v@));
                }
                return Some(string_from_chars(&v));
            },
            None => {},
        }
        i += 1;
    }
    proof {
        assert(ls.subrange(ls.len() as int, ls.len() as int) =~= Seq::<Seq<char>>::empty());
    }
    None
}

/// The first index at or after `from` holding a non-whitespace character,
/// or the length when there is none.
pub open spec fn token_start(s: Seq<char>, from: int) -> int
    decreases s.len() - from,
{
    if from >= s.len() {
        s.len() as int
    } else if is_space(s[from]) {
        token_start(s, from + 1)
    } else {
        from
    }
}

/// The first index at or after `from` holding whitespace, or the length
/// when there is none.
pub open spec fn token_end(s: Seq<char>, from: int) -> int
    decreases s.len() - from,
{
    if from >= s.len() {
        s.len() as int
    } else if !is_space(s[from]) {
        token_end(s, from + 1)
    } else {
        from
    }
}

/// The start of the next token lies between the search start and the end
/// of the text.
pub broadcast proof fn lemma_token_start_bounds(s: Seq<char>, from: int)
    requires
        0 <= from <= s.len(),
    ensures
        from <= #[trigger] token_start(s, from) <= s.len(),
    decreases s.len() - from,
{
    if from < s.len() && is_space(s[from]) {
        lemma_token_start_bounds(s, from + 1);
    }
}

/// The end of the current token lies between the search start and the end
/// of the text.
pub broadcast proof fn lemma_token_end_bounds(s: Seq<char>, from: int)
    requires
        0 <= from <= s.len(),
    ensures
        from <= #[trigger] token_end(s, from) <= s.len(),
    decreases s.len() - from,
{
    if from < s.len() && !is_space(s[from]) {
        lemma_token_end_bounds(s, from + 1);
    }
}

fn token_start_exec(v: &Vec<char>, from: usize) -> (r: usize)
    requires
        from <= v@.len(),
    ensures
        r == token_start(v@, from as int),
        from <= r <= v@.len(),
{
    let mut i: usize = from;
    while i < v.len()
        invariant
            from <= i <= v@.len(),
            token_start(v@, from as int) == token_start(v@, i as int),
        decreases v@.len() - i,
    {
        if !crate::text::char_is_space(v[i]) {
            return i;
        }
        i += 1;
    }
    i
}

fn token_end_exec(v: &Vec<char>, from: usize) -> (r: usize)
    requires
        from <= v@.len(),
    ensures
        r == token_end(v@, from as int),
        from <= r <= v@.len(),
{
    let mut i: usize = from;
    while i < v.len()
        invariant
            from <= i <= v@.len(),
            token_end(v@, from as int) == token_end(v@, i as int),
        decreases v@.len() - i,
    {
        if crate::text::char_is_space(v[i]) {
            return i;
        }
        i += 1;
    }
    i
}

fn parse_u32_chars(v: &Vec<char>) -> (r: Option<u32>)
    ensures
        match r {
            Some(n) => parses_dec(v@, u32::MAX as int) && n as int == dec_val(digits_of(v@)),
            None => !parses_dec(v@, u32::MAX as int),
        },
{
    match parse_u64_chars(v) {
        Some(n) => {
            if n <= u32::MAX as u64 {
                Some(n as u32)
            } else {
                None
            }
        },
        None => None,
    }
}

/// The ahead/behind counts read from left-right commit-count output: its
/// first two whitespace-separated fields, each kept at zero when it is
/// not a number.
pub open spec fn ahead_behind(s: Seq<char>) -> (int, int) {
    let t1s = token_start(s, 0);
    if t1s >= s.len() {
        (0int, 0int)
    } else {
        let t1e = token_end(s, t1s);
        let tok1 = s.subrange(t1s, t1e);
        let a = if parses_dec(tok1, u32::MAX as int) {
            dec_val(digits_of(tok1))
        } else {
            0int
        };
        let t2s = token_start(s, t1e);
        if t2s >= s.len() {
            (a, 0int)
        } else {
            let t2e = token_end(s, t2s);
            let tok2 = s.subrange(t2s, t2e);
            let b = if parses_dec(tok2, u32::MAX as int) {
                dec_val(digits_of(tok2))
            } else {
                0int
            };
            (a, b)
        }
    }
}

/// A branch that has fallen behind its upstream, and by how much.
#[derive(Debug)]
pub struct GitUpdateInfo {
    pub branch: String,
    pub upstream: String,
    pub behind: u32,
    pub ahead: u32,
}

/// Decides whether a branch is behind its upstream from the output of a
/// left-right commit count ("<ahead> <behind>"): reported exactly when
/// the behind count is positive.
pub fn git_update_info_from_counts(branch: String, upstream: String, counts: &str) -> (r: Option<
    GitUpdateInfo,
>)
    ensures
        ({
            let ab = ahead_behind(counts@);
            match r {
                Some(info) => ab.1 > 0 && info.branch == branch && info.upstream == upstream
                    && info.ahead as int == ab.0 && info.behind as int == ab.1,
                None => !(ab.1 > 0),
            }
        }),
{
    let cv = chars_of(counts);
    let mut ahead: u32 = 0;
    let mut behind: u32 = 0;
    let t1s = token_start_exec(&cv, 0);
    if t1s < cv.len() {
        let t1e = token_end_exec(&cv, t1s);
        match parse_u32_chars(&sub_chars(&cv, t1s, t1e)) {
            Some(v) => {
                ahead = v;
            },
            None => {},
        }
        let t2s = token_start_exec(&cv, t1e);
        if t2s < cv.len() {
            let t2e = token_end_exec(&cv, t2s);
            match parse_u32_chars(&sub_chars(&cv, t2s, t2e)) {
                Some(v) => {
                    behind = v;
                },
                None => {},
            }
        }
    }
    if behind > 0 {
        Some(GitUpdateInfo { branch, upstream, behind, ahead })
    } else {
        None
    }
}

/// What one line of tag-listing output contributes: the text after
/// "refs/tags/v" in its second tab-separated field, with the version it
/// parses to.
pub open spec fn line_tag_version(l: Seq<char>) -> Option<(Seq<char>, (u64, u64, u64))> {
    let t1 = first_char_from(l, 0, '\t');
    if t1 >= l.len() {
        None
    } else {
        let t2 = first_char_from(l, t1 + 1, '\t');
        let tag = l.subrange(t1 + 1, t2);
        let p = "refs/tags/v"@;
        if !has_prefix(tag, p) {
            None
        } else {
            let ver = tag.subrange(p.len() as int, tag.len() as int);
            match parse_version_spec(ver) {
                Some(t) => Some((ver, t)),
                None => None,
            }
        }
    }
}

/// The highest tagged version among the lines, first of equals winning.
pub open spec fn best_tag(ls: Seq<Seq<char>>) -> Option<(Seq<char>, (u64, u64, u64))>
    decreases ls.len(),
{
    if ls.len() == 0 {
        None
    } else {
        let prev = best_tag(ls.drop_last());
        match line_tag_version(ls.last()) {
            None => prev,
            Some(cand) => match prev {
                None => Some(cand),
                Some(b) => if version_gt(cand.1, b.1) {
                    Some(cand)
                } else {
                    Some(b)
                },
            },
        }
    }
}

fn line_tag_version_exec(l: &Vec<char>) -> (r: Option<(Vec<char>, (u64, u64, u64))>)
    ensures
        match r {
            Some(c) => line_tag_version(l@) == Some((c.0@, c.1)),
            None => line_tag_version(l@) is None,
        },
{
    let t1 = first_char_from_exec(l, 0, '\t');
    if t1 >= l.len() {
        return None;
    }
    let t2 = first_char_from_exec(l, t1 + 1, '\t');
    let tag = sub_chars(l, t1 + 1, t2);
    let pfx = chars_of("refs/tags/v");
    if !crate::text::starts_with_chars(&tag, &pfx) {
        return None;
    }
    let ver = sub_chars(&tag, pfx.len(), tag.len());
    let vs = string_from_chars(&ver);
    match parse_version(vs.as_str()) {
        Some(t) => Some((ver, t)),
        None => None,
    }
}

/// A published version strictly newer than the one currently embedded.
#[derive(Debug)]
pub struct CodeUpstreamDelta {
    pub current_version: String,
    pub upstream_version: String,
}

/// Decides whether the published tags name a version newer than the
/// current one: the highest "refs/tags/v…" version among the listed tags,
/// reported exactly when it is strictly newer than the current version.
pub fn code_upstream_delta(current_version: &str, ls_remote: &str) -> (r: Option<
    CodeUpstreamDelta,
>)
    ensures
        ({
            match best_tag(lines_of(ls_remote@)) {
                None => r is None,
                Some(b) => {
                    let newer = match (
                        parse_version_spec(b.0),
                        parse_version_spec(current_version@),
                    ) {
                        (Some(l), Some(c)) => version_gt(l, c),
                        _ => false,
                    };
                    if newer {
                        r matches Some(d) && d.current_version@ == current_version@
                            && d.upstream_version@ == b.0
                    } else {
                        r is None
                    }
                },
            }
        }),
{
    let lines = split_lines(ls_remote);
    let ghost ls = lines_of(ls_remote@);
    let mut best: Option<(Vec<char>, (u64, u64, u64))> = None;
    let mut i: usize = 0;
    while i < lines.len()
        invariant
            i <= lines@.len(),
            ls == lines_of(ls_remote@),
            lines@.map_values(|l: Vec<char>| l@) == ls,
            match best {
                None => best_tag(ls.subrange(0, i as int)) is None,
                Some(c) => best_tag(ls.subrange(0, i as int)) == Some((c.0@, c.1)),
            },
        decreases lines@.len() - i,
    {
        proof {
            let cur = ls.subrange(0, i + 1);
            assert(cur.drop_last() =~= ls.subrange(0, i as int));
            assert(cur.last() == ls[i as int]);
            assert(ls[i as int] == lines@[i as int]@);
        }
        match line_tag_version_exec(&lines[i]) {
            None => {},
            Some(cand) => {
                let replace = match &best {
                    None => true,
                    Some(b) => {
                        let l = cand.1;
                        let c = b.1;
                        l.0 > c.0 || (l.0 == c.0 && l.1 > c.1) || (l.0 == c.0 && l.1 == c.1 && l.2
                            > c.2)
                    },
                };
                if replace {
                    best = Some(cand);
                }
            },
        }
        i += 1;
    }
    proof {
        assert(ls.subrange(0, ls.len() as int) =~= ls);
    }
    match best {
        None => None,
        Some(b) => {
            let uv = string_from_chars(&b.0);
            match is_newer(uv.as_str(), current_version) {
                Some(true) => Some(
                    CodeUpstreamDelta {
                        current_version: current_version.to_owned(),
                        upstream_version: uv,
                    },
                ),
                _ => None,
            }
        },
    }
}

} // verus!
