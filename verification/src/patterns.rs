//! The catalog of recognized date surface forms.
//!
//! Each form is a fixed recognition rule over characters. `match_at` states,
//! for a form and a position in a text, whether the rule matches there and
//! which substring it matches; the executable `pattern_match_at` decides the
//! same question. The scan over a whole text lives in `filtering`.

use vstd::prelude::*;
use crate::text::{
    str_chars,
    is_digit, is_word_char, is_space, is_lower,
    digit_check, word_char_check, space_check, lower_check,
};

verus! {

/// The classification of a matched date-like substring: one of eight fixed
/// surface-form categories. Each variant carries a fixed recognition rule
/// (`match_at`) and a fixed description string (`description`).
#[derive(Clone, Copy, Debug, PartialEq, Eq, Structural)]
pub enum DatePatternType {
    NumericSlash,
    NumericSpace,
    NumericConcatenated,
    DateOfBirthWithDashes,
    DateOfBirthConcatenated,
    DateOfBirthWithSpaces,
    VerboseDateShortMonth,
    VerboseDateLongMonth,
}

/// A separator drawn from `-`, `/`, `.`.
pub open spec fn is_dash_sep(c: char) -> bool {
    c == '-' || c == '/' || c == '.'
}

/// A separator drawn from `-`, `/`, `.` or a space.
pub open spec fn is_any_sep(c: char) -> bool {
    is_dash_sep(c) || c == ' '
}

/// A word boundary falls immediately before position `i`.
pub open spec fn boundary_before(s: Seq<char>, i: int) -> bool {
    i == 0 || !is_word_char(s[i - 1])
}

/// A word boundary falls immediately after position `j` (exclusive end).
pub open spec fn boundary_after(s: Seq<char>, j: int) -> bool {
    j == s.len() || !is_word_char(s[j])
}

/// `n` consecutive digits starting at `i`.
pub open spec fn digit_run_at(s: Seq<char>, i: int, n: int) -> bool {
    &&& 0 <= i
    &&& i + n <= s.len()
    &&& forall|k: int| i <= k < i + n ==> is_digit(#[trigger] s[k])
}

/// Two digits, a separator, two digits, a separator, four digits: the
/// ten-character numeric shape. With `allow_space` the separator class also
/// admits a space.
pub open spec fn sep_shape_at(s: Seq<char>, i: int, allow_space: bool) -> bool {
    &&& 0 <= i
    &&& i + 10 <= s.len()
    &&& digit_run_at(s, i, 2)
    &&& (if allow_space { is_any_sep(s[i + 2]) } else { is_dash_sep(s[i + 2]) })
    &&& digit_run_at(s, i + 3, 2)
    &&& (if allow_space { is_any_sep(s[i + 5]) } else { is_dash_sep(s[i + 5]) })
    &&& digit_run_at(s, i + 6, 4)
}

/// The literal `Date of Birth:` starting at `i`.
pub open spec fn dob_prefix_at(s: Seq<char>, i: int) -> bool {
    &&& 0 <= i
    &&& i + 14 <= s.len()
    &&& s[i] == 'D' && s[i + 1] == 'a' && s[i + 2] == 't' && s[i + 3] == 'e'
    &&& s[i + 4] == ' ' && s[i + 5] == 'o' && s[i + 6] == 'f' && s[i + 7] == ' '
    &&& s[i + 8] == 'B' && s[i + 9] == 'i' && s[i + 10] == 'r' && s[i + 11] == 't'
    &&& s[i + 12] == 'h' && s[i + 13] == ':'
}

/// End of the run of lowercase letters starting at `i`.
pub open spec fn lower_run_end(s: Seq<char>, i: int) -> int
    decreases s.len() - i,
{
    if 0 <= i && i < s.len() && is_lower(s[i]) {
        lower_run_end(s, i + 1)
    } else {
        i
    }
}

/// End of the run of whitespace starting at `i`.
pub open spec fn space_run_end(s: Seq<char>, i: int) -> int
    decreases s.len() - i,
{
    if 0 <= i && i < s.len() && is_space(s[i]) {
        space_run_end(s, i + 1)
    } else {
        i
    }
}

/// A three-letter month abbreviation starting at `i`.
pub open spec fn month_abbrev_at(s: Seq<char>, i: int) -> bool {
    &&& 0 <= i
    &&& i + 3 <= s.len()
    &&& {
        let a = s[i];
        let b = s[i + 1];
        let c = s[i + 2];
        ||| (a == 'J' && b == 'a' && c == 'n')
        ||| (a == 'F' && b == 'e' && c == 'b')
        ||| (a == 'M' && b == 'a' && c == 'r')
        ||| (a == 'A' && b == 'p' && c == 'r')
        ||| (a == 'M' && b == 'a' && c == 'y')
        ||| (a == 'J' && b == 'u' && c == 'n')
        ||| (a == 'J' && b == 'u' && c == 'l')
        ||| (a == 'A' && b == 'u' && c == 'g')
        ||| (a == 'S' && b == 'e' && c == 'p')
        ||| (a == 'O' && b == 'c' && c == 't')
        ||| (a == 'N' && b == 'o' && c == 'v')
        ||| (a == 'D' && b == 'e' && c == 'c')
    }
}

/// The characters of `name` stand in `s` at position `i`.
pub open spec fn lit_at(s: Seq<char>, i: int, name: Seq<char>) -> bool {
    &&& 0 <= i
    &&& i + name.len() <= s.len()
    &&& forall|k: int| 0 <= k < name.len() ==> s[i + k] == #[trigger] name[k]
}

/// The end of the full month name starting at `i`, if one stands there.
/// No full month name is a prefix of another, so at most one fits.
pub open spec fn long_month_end_at(s: Seq<char>, i: int) -> Option<int> {
    if lit_at(s, i, "January"@) {
        Some(i + 7)
    } else if lit_at(s, i, "February"@) {
        Some(i + 8)
    } else if lit_at(s, i, "March"@) {
        Some(i + 5)
    } else if lit_at(s, i, "April"@) {
        Some(i + 5)
    } else if lit_at(s, i, "May"@) {
        Some(i + 3)
    } else if lit_at(s, i, "June"@) {
        Some(i + 4)
    } else if lit_at(s, i, "July"@) {
        Some(i + 4)
    } else if lit_at(s, i, "August"@) {
        Some(i + 6)
    } else if lit_at(s, i, "September"@) {
        Some(i + 9)
    } else if lit_at(s, i, "October"@) {
        Some(i + 7)
    } else if lit_at(s, i, "November"@) {
        Some(i + 8)
    } else if lit_at(s, i, "December"@) {
        Some(i + 8)
    } else {
        None
    }
}

/// After the day digits of a verbose date: whitespace, a month name (the
/// abbreviated class when `long` is false, the full class when it is true),
/// whitespace, four digits, a trailing word boundary. Returns the end of the
/// whole match.
pub open spec fn verbose_rest(s: Seq<char>, d_end: int, long: bool) -> Option<int> {
    let w1 = space_run_end(s, d_end);
    if w1 == d_end {
        None
    } else {
        let m_end_opt: Option<int> = if long {
            long_month_end_at(s, w1)
        } else {
            if month_abbrev_at(s, w1) {
                Some(lower_run_end(s, w1 + 3))
            } else {
                None
            }
        };
        match m_end_opt {
            Some(m_end) => {
                let w2 = space_run_end(s, m_end);
                if w2 == m_end {
                    None
                } else if digit_run_at(s, w2, 4) && boundary_after(s, w2 + 4) {
                    Some(w2 + 4)
                } else {
                    None
                }
            },
            None => None,
        }
    }
}

/// A verbose date starting at `i`: one or two day digits, then
/// `verbose_rest`. Two day digits are preferred over one, mirroring a greedy
/// repetition.
pub open spec fn verbose_match_at(s: Seq<char>, i: int, long: bool) -> Option<int> {
    if boundary_before(s, i) {
        if digit_run_at(s, i, 2) && verbose_rest(s, i + 2, long) is Some {
            verbose_rest(s, i + 2, long)
        } else if digit_run_at(s, i, 1) && verbose_rest(s, i + 1, long) is Some {
            verbose_rest(s, i + 1, long)
        } else {
            None
        }
    } else {
        None
    }
}

/// A `Date of Birth:` form starting at `i`: the literal prefix, at most one
/// space, then a ten-character numeric shape. Returns
/// (match length, candidate start, candidate end); the candidate is the date
/// portion without the prefix.
pub open spec fn dob_sep_match_at(s: Seq<char>, i: int, allow_space: bool) -> Option<(int, int, int)> {
    if dob_prefix_at(s, i) {
        let p = i + 14;
        if p < s.len() && s[p] == ' ' {
            if sep_shape_at(s, p + 1, allow_space) {
                Some((25, p + 1, p + 11))
            } else {
                None
            }
        } else {
            if sep_shape_at(s, p, allow_space) {
                Some((24, p, p + 10))
            } else {
                None
            }
        }
    } else {
        None
    }
}

/// A concatenated `Date of Birth:` form starting at `i`: the literal prefix,
/// at most one space, then eight digits.
pub open spec fn dob_concat_match_at(s: Seq<char>, i: int) -> Option<(int, int, int)> {
    if dob_prefix_at(s, i) {
        let p = i + 14;
        if p < s.len() && s[p] == ' ' {
            if digit_run_at(s, p + 1, 8) {
                Some((23, p + 1, p + 9))
            } else {
                None
            }
        } else {
            if digit_run_at(s, p, 8) {
                Some((22, p, p + 8))
            } else {
                None
            }
        }
    } else {
        None
    }
}

/// The recognition rule of surface form `p`, applied at position `i` of `s`.
/// `Some((len, a, b))` means the rule matches the `len` characters starting
/// at `i`, and the reported candidate substring is `s[a..b]`.
pub open spec fn match_at(p: DatePatternType, s: Seq<char>, i: int) -> Option<(int, int, int)> {
    match p {
        DatePatternType::NumericSlash => {
            if boundary_before(s, i) && sep_shape_at(s, i, false) && boundary_after(s, i + 10) {
                Some((10, i, i + 10))
            } else {
                None
            }
        },
        DatePatternType::NumericSpace => {
            if boundary_before(s, i) && sep_shape_at(s, i, true) && boundary_after(s, i + 10) {
                Some((10, i, i + 10))
            } else {
                None
            }
        },
        DatePatternType::NumericConcatenated => {
            if boundary_before(s, i) && digit_run_at(s, i, 8) && boundary_after(s, i + 8) {
                Some((8, i, i + 8))
            } else {
                None
            }
        },
        DatePatternType::DateOfBirthWithDashes => dob_sep_match_at(s, i, false),
        DatePatternType::DateOfBirthConcatenated => dob_concat_match_at(s, i),
        DatePatternType::DateOfBirthWithSpaces => dob_sep_match_at(s, i, true),
        DatePatternType::VerboseDateShortMonth => {
            match verbose_match_at(s, i, false) {
                Some(e) => Some((e - i, i, e)),
                None => None,
            }
        },
        DatePatternType::VerboseDateLongMonth => {
            match verbose_match_at(s, i, true) {
                Some(e) => Some((e - i, i, e)),
                None => None,
            }
        },
    }
}

proof fn lemma_lower_run_end_bounds(s: Seq<char>, i: int)
    requires
        0 <= i <= s.len(),
    ensures
        i <= lower_run_end(s, i) <= s.len(),
    decreases s.len() - i,
{
    if i < s.len() && is_lower(s[i]) {
        lemma_lower_run_end_bounds(s, i + 1);
    }
}

proof fn lemma_space_run_end_bounds(s: Seq<char>, i: int)
    requires
        0 <= i <= s.len(),
    ensures
        i <= space_run_end(s, i) <= s.len(),
    decreases s.len() - i,
{
    if i < s.len() && is_space(s[i]) {
        lemma_space_run_end_bounds(s, i + 1);
    }
}

proof fn lemma_verbose_rest_bounds(s: Seq<char>, d_end: int, long: bool)
    requires
        0 <= d_end <= s.len(),
        verbose_rest(s, d_end, long) is Some,
    ensures
        d_end < verbose_rest(s, d_end, long)->0 <= s.len(),
{
    let w1 = space_run_end(s, d_end);
    lemma_space_run_end_bounds(s, d_end);
    if long {
    } else {
        lemma_lower_run_end_bounds(s, w1 + 3);
    }
    let e = verbose_rest(s, d_end, long)->0;
    let m_end: int = if long {
        long_month_end_at(s, w1)->0
    } else {
        lower_run_end(s, w1 + 3)
    };
    lemma_space_run_end_bounds(s, m_end);
}

/// A successful match has positive length, stays inside the text, and its
/// candidate lies inside the matched span.
pub proof fn lemma_match_at_bounds(p: DatePatternType, s: Seq<char>, i: int)
    requires
        0 <= i <= s.len(),
        match_at(p, s, i) is Some,
    ensures
        ({
            let (l, a, b) = match_at(p, s, i)->0;
            &&& 1 <= l
            &&& i + l <= s.len()
            &&& i <= a <= b
            &&& b <= i + l
        }),
{
    match p {
        DatePatternType::VerboseDateShortMonth | DatePatternType::VerboseDateLongMonth => {
            let long = p is VerboseDateLongMonth;
            if digit_run_at(s, i, 2) && verbose_rest(s, i + 2, long) is Some {
                lemma_verbose_rest_bounds(s, i + 2, long);
            } else {
                lemma_verbose_rest_bounds(s, i + 1, long);
            }
        },
        _ => {},
    }
}

fn dash_sep_check(c: char) -> (r: bool)
    ensures
        r == is_dash_sep(c),
{
    c == '-' || c == '/' || c == '.'
}

fn any_sep_check(c: char) -> (r: bool)
    ensures
        r == is_any_sep(c),
{
    c == '-' || c == '/' || c == '.' || c == ' '
}

fn boundary_before_check(s: &Vec<char>, i: usize) -> (r: bool)
    requires
        i <= s@.len(),
    ensures
        r == boundary_before(s@, i as int),
{
    i == 0 || !word_char_check(s[i - 1])
}

fn boundary_after_check(s: &Vec<char>, j: usize) -> (r: bool)
    requires
        j <= s@.len(),
    ensures
        r == boundary_after(s@, j as int),
{
    j == s.len() || !word_char_check(s[j])
}

fn digit_run_check(s: &Vec<char>, i: usize, n: usize) -> (r: bool)
    requires
        i <= s@.len(),
    ensures
        r == digit_run_at(s@, i as int, n as int),
{
    let sn = s.len();
    if sn - i < n {
        return false;
    }
    let mut k: usize = 0;
    while k < n
        invariant
            k <= n,
            sn == s@.len(),
            i + n <= s@.len(),
            forall|t: int| i <= t < i + k ==> is_digit(#[trigger] s@[t]),
        decreases n - k,
    {
        if !digit_check(s[i + k]) {
            return false;
        }
        k = k + 1;
    }
    true
}

fn sep_shape_check(s: &Vec<char>, i: usize, allow_space: bool) -> (r: bool)
    requires
        i <= s@.len(),
    ensures
        r == sep_shape_at(s@, i as int, allow_space),
{
    if s.len() - i < 10 {
        return false;
    }
    let sep0 = if allow_space {
        any_sep_check(s[i + 2])
    } else {
        dash_sep_check(s[i + 2])
    };
    let sep1 = if allow_space {
        any_sep_check(s[i + 5])
    } else {
        dash_sep_check(s[i + 5])
    };
    digit_run_check(s, i, 2) && sep0 && digit_run_check(s, i + 3, 2) && sep1 && digit_run_check(
        s,
        i + 6,
        4,
    )
}

fn dob_prefix_check(s: &Vec<char>, i: usize) -> (r: bool)
    requires
        i <= s@.len(),
    ensures
        r == dob_prefix_at(s@, i as int),
{
    if s.len() - i < 14 {
        return false;
    }
    s[i] == 'D' && s[i + 1] == 'a' && s[i + 2] == 't' && s[i + 3] == 'e' && s[i + 4] == ' '
        && s[i + 5] == 'o' && s[i + 6] == 'f' && s[i + 7] == ' ' && s[i + 8] == 'B'
        && s[i + 9] == 'i' && s[i + 10] == 'r' && s[i + 11] == 't' && s[i + 12] == 'h'
        && s[i + 13] == ':'
}

fn lower_run_end_exec(s: &Vec<char>, i: usize) -> (r: usize)
    requires
        i <= s@.len(),
    ensures
        r as int == lower_run_end(s@, i as int),
        i <= r <= s@.len(),
{
    let mut j: usize = i;
    while j < s.len() && lower_check(s[j])
        invariant
            i <= j <= s@.len(),
            lower_run_end(s@, i as int) == lower_run_end(s@, j as int),
        decreases s@.len() - j,
    {
        j = j + 1;
    }
    j
}

fn space_run_end_exec(s: &Vec<char>, i: usize) -> (r: usize)
    requires
        i <= s@.len(),
    ensures
        r as int == space_run_end(s@, i as int),
        i <= r <= s@.len(),
{
    let mut j: usize = i;
    while j < s.len() && space_check(s[j])
        invariant
            i <= j <= s@.len(),
            space_run_end(s@, i as int) == space_run_end(s@, j as int),
        decreases s@.len() - j,
    {
        j = j + 1;
    }
    j
}

fn month_abbrev_check(s: &Vec<char>, i: usize) -> (r: bool)
    requires
        i <= s@.len(),
    ensures
        r == month_abbrev_at(s@, i as int),
{
    if s.len() - i < 3 {
        return false;
    }
    let a = s[i];
    let b = s[i + 1];
    let c = s[i + 2];
    (a == 'J' && b == 'a' && c == 'n') || (a == 'F' && b == 'e' && c == 'b') || (a == 'M' && b
        == 'a' && c == 'r') || (a == 'A' && b == 'p' && c == 'r') || (a == 'M' && b == 'a' && c
        == 'y') || (a == 'J' && b == 'u' && c == 'n') || (a == 'J' && b == 'u' && c == 'l') || (a
        == 'A' && b == 'u' && c == 'g') || (a == 'S' && b == 'e' && c == 'p') || (a == 'O' && b
        == 'c' && c == 't') || (a == 'N' && b == 'o' && c == 'v') || (a == 'D' && b == 'e' && c
        == 'c')
}

fn lit_check(s: &Vec<char>, i: usize, name: &Vec<char>) -> (r: bool)
    requires
        i <= s@.len(),
    ensures
        r == lit_at(s@, i as int, name@),
{
    let sn = s.len();
    if sn - i < name.len() {
        return false;
    }
    let mut k: usize = 0;
    while k < name.len()
        invariant
            k <= name@.len(),
            sn == s@.len(),
            i + name@.len() <= s@.len(),
            forall|t: int| 0 <= t < k ==> s@[i + t] == #[trigger] name@[t],
        decreases name@.len() - k,
    {
        if s[i + k] != name[k] {
            return false;
        }
        k = k + 1;
    }
    true
}

fn lit_str_check(s: &Vec<char>, i: usize, name: &str) -> (r: bool)
    requires
        i <= s@.len(),
    ensures
        r == lit_at(s@, i as int, name@),
{
    let nv = str_chars(name);
    lit_check(s, i, &nv)
}

fn long_month_check(s: &Vec<char>, i: usize) -> (r: Option<usize>)
    requires
        i <= s@.len(),
    ensures
        match r {
            Some(e) => long_month_end_at(s@, i as int) == Some(e as int) && i <= e <= s@.len(),
            None => long_month_end_at(s@, i as int) is None,
        },
{
    let n = s.len();
    proof {
        reveal_strlit("January");
        reveal_strlit("February");
        reveal_strlit("March");
        reveal_strlit("April");
        reveal_strlit("May");
        reveal_strlit("June");
        reveal_strlit("July");
        reveal_strlit("August");
        reveal_strlit("September");
        reveal_strlit("October");
        reveal_strlit("November");
        reveal_strlit("December");
    }
    if lit_str_check(s, i, "January") {
        Some(i + 7)
    } else if lit_str_check(s, i, "February") {
        Some(i + 8)
    } else if lit_str_check(s, i, "March") {
        Some(i + 5)
    } else if lit_str_check(s, i, "April") {
        Some(i + 5)
    } else if lit_str_check(s, i, "May") {
        Some(i + 3)
    } else if lit_str_check(s, i, "June") {
        Some(i + 4)
    } else if lit_str_check(s, i, "July") {
        Some(i + 4)
    } else if lit_str_check(s, i, "August") {
        Some(i + 6)
    } else if lit_str_check(s, i, "September") {
        Some(i + 9)
    } else if lit_str_check(s, i, "October") {
        Some(i + 7)
    } else if lit_str_check(s, i, "November") {
        Some(i + 8)
    } else if lit_str_check(s, i, "December") {
        Some(i + 8)
    } else {
        None
    }
}

fn verbose_rest_check(s: &Vec<char>, d_end: usize, long: bool) -> (r: Option<usize>)
    requires
        d_end <= s@.len(),
    ensures
        match r {
            Some(e) => verbose_rest(s@, d_end as int, long) == Some(e as int) && d_end < e
                <= s@.len(),
            None => verbose_rest(s@, d_end as int, long) is None,
        },
{
    let n = s.len();
    let w1 = space_run_end_exec(s, d_end);
    if w1 == d_end {
        return None;
    }
    let m_end: usize;
    if long {
        match long_month_check(s, w1) {
            Some(e) => {
                m_end = e;
            },
            None => {
                return None;
            },
        }
    } else {
        if month_abbrev_check(s, w1) {
            m_end = lower_run_end_exec(s, w1 + 3);
        } else {
            return None;
        }
    }
    let w2 = space_run_end_exec(s, m_end);
    if w2 == m_end {
        return None;
    }
    if digit_run_check(s, w2, 4) && boundary_after_check(s, w2 + 4) {
        Some(w2 + 4)
    } else {
        None
    }
}

fn verbose_match_check(s: &Vec<char>, i: usize, long: bool) -> (r: Option<usize>)
    requires
        i <= s@.len(),
    ensures
        match r {
            Some(e) => verbose_match_at(s@, i as int, long) == Some(e as int) && i < e <= s@.len(),
            None => verbose_match_at(s@, i as int, long) is None,
        },
{
    let n = s.len();
    if !boundary_before_check(s, i) {
        return None;
    }
    if digit_run_check(s, i, 2) {
        match verbose_rest_check(s, i + 2, long) {
            Some(e) => {
                return Some(e);
            },
            None => {},
        }
    }
    if digit_run_check(s, i, 1) {
        match verbose_rest_check(s, i + 1, long) {
            Some(e) => {
                return Some(e);
            },
            None => {},
        }
    }
    None
}

fn dob_sep_match_check(s: &Vec<char>, i: usize, allow_space: bool) -> (r: Option<(usize, usize, usize)>)
    requires
        i <= s@.len(),
    ensures
        match r {
            Some((l, a, b)) => dob_sep_match_at(s@, i as int, allow_space) == Some(
                (l as int, a as int, b as int),
            ),
            None => dob_sep_match_at(s@, i as int, allow_space) is None,
        },
{
    if !dob_prefix_check(s, i) {
        return None;
    }
    let n = s.len();
    let p = i + 14;
    if p < s.len() && s[p] == ' ' {
        if sep_shape_check(s, p + 1, allow_space) {
            Some((25, p + 1, p + 11))
        } else {
            None
        }
    } else {
        if sep_shape_check(s, p, allow_space) {
            Some((24, p, p + 10))
        } else {
            None
        }
    }
}

fn dob_concat_match_check(s: &Vec<char>, i: usize) -> (r: Option<(usize, usize, usize)>)
    requires
        i <= s@.len(),
    ensures
        match r {
            Some((l, a, b)) => dob_concat_match_at(s@, i as int) == Some(
                (l as int, a as int, b as int),
            ),
            None => dob_concat_match_at(s@, i as int) is None,
        },
{
    if !dob_prefix_check(s, i) {
        return None;
    }
    let n = s.len();
    let p = i + 14;
    if p < s.len() && s[p] == ' ' {
        if digit_run_check(s, p + 1, 8) {
            Some((23, p + 1, p + 9))
        } else {
            None
        }
    } else {
        if digit_run_check(s, p, 8) {
            Some((22, p, p + 8))
        } else {
            None
        }
    }
}

/// Decides `match_at` for surface form `p` at position `i`.
pub fn pattern_match_at(p: DatePatternType, s: &Vec<char>, i: usize) -> (r: Option<
    (usize, usize, usize),
>)
    requires
        i <= s@.len(),
    ensures
        match r {
            Some((l, a, b)) => match_at(p, s@, i as int) == Some((l as int, a as int, b as int)),
            None => match_at(p, s@, i as int) is None,
        },
{
    let n = s.len();
    match p {
        DatePatternType::NumericSlash => {
            if boundary_before_check(s, i) && sep_shape_check(s, i, false) && boundary_after_check(
                s,
                i + 10,
            ) {
                Some((10, i, i + 10))
            } else {
                None
            }
        },
        DatePatternType::NumericSpace => {
            if boundary_before_check(s, i) && sep_shape_check(s, i, true) && boundary_after_check(
                s,
                i + 10,
            ) {
                Some((10, i, i + 10))
            } else {
                None
            }
        },
        DatePatternType::NumericConcatenated => {
            if boundary_before_check(s, i) && digit_run_check(s, i, 8) && boundary_after_check(
                s,
                i + 8,
            ) {
                Some((8, i, i + 8))
            } else {
                None
            }
        },
        DatePatternType::DateOfBirthWithDashes => dob_sep_match_check(s, i, false),
        DatePatternType::DateOfBirthConcatenated => dob_concat_match_check(s, i),
        DatePatternType::DateOfBirthWithSpaces => dob_sep_match_check(s, i, true),
        DatePatternType::VerboseDateShortMonth => {
            match verbose_match_check(s, i, false) {
                Some(e) => Some((e - i, i, e)),
                None => None,
            }
        },
        DatePatternType::VerboseDateLongMonth => {
            match verbose_match_check(s, i, true) {
                Some(e) => Some((e - i, i, e)),
                None => None,
            }
        },
    }
}

/// The fixed, human-readable description of each surface form.
pub open spec fn description_spec(p: DatePatternType) -> Seq<char> {
    match p {
        DatePatternType::NumericSlash => "Dates with slashes or dots between numbers"@,
        DatePatternType::NumericSpace => "Dates with spaces between numbers"@,
        DatePatternType::NumericConcatenated => "Concatenated numeric dates without separators"@,
        DatePatternType::DateOfBirthWithDashes => "Date of birth with dashes or dots as separators"@,
        DatePatternType::DateOfBirthConcatenated => "Concatenated date of birth without separators"@,
        DatePatternType::DateOfBirthWithSpaces => "Date of birth with spaces as separators"@,
        DatePatternType::VerboseDateShortMonth => "Verbose dates with short month names"@,
        DatePatternType::VerboseDateLongMonth => "Verbose dates with full month names"@,
    }
}

impl DatePatternType {
    /// A human-readable description of the surface form, for diagnostics.
    pub fn description(&self) -> (r: String)
        ensures
            r@ == description_spec(*self),
    {
        match self {
            DatePatternType::NumericSlash => String::from_str(
                "Dates with slashes or dots between numbers",
            ),
            DatePatternType::NumericSpace => String::from_str("Dates with spaces between numbers"),
            DatePatternType::NumericConcatenated => String::from_str(
                "Concatenated numeric dates without separators",
            ),
            DatePatternType::DateOfBirthWithDashes => String::from_str(
                "Date of birth with dashes or dots as separators",
            ),
            DatePatternType::DateOfBirthConcatenated => String::from_str(
                "Concatenated date of birth without separators",
            ),
            DatePatternType::DateOfBirthWithSpaces => String::from_str(
                "Date of birth with spaces as separators",
            ),
            DatePatternType::VerboseDateShortMonth => String::from_str(
                "Verbose dates with short month names",
            ),
            DatePatternType::VerboseDateLongMonth => String::from_str(
                "Verbose dates with full month names",
            ),
        }
    }
}

} // verus!
