//! The date parser: interprets a candidate string against a configurable
//! registry of layout templates and produces a calendar date that is
//! guaranteed to exist under the proleptic Gregorian calendar.
//!
//! A template maps characters of the candidate onto year, month and day
//! components: the directive `%d` consumes two day digits, `%m` two month
//! digits, `%Y` four year digits, and every other template character must
//! stand in the candidate literally. An interpretation succeeds only when
//! the whole candidate is consumed, all three components were read, and they
//! name a real calendar date; `apply_from` is the exact statement.

use vstd::prelude::*;
use crate::text::{is_digit, digit_val, digit_check, digit_value, str_chars};

verus! {

/// Whether year `y` is a leap year of the proleptic Gregorian calendar.
pub open spec fn is_leap_year(y: int) -> bool {
    y % 4 == 0 && (y % 100 != 0 || y % 400 == 0)
}

/// The number of days of month `m` in year `y`.
pub open spec fn days_in_month(y: int, m: int) -> int {
    if m == 2 {
        if is_leap_year(y) {
            29
        } else {
            28
        }
    } else if m == 4 || m == 6 || m == 9 || m == 11 {
        30
    } else {
        31
    }
}

/// A real calendar date with a four-digit year: no month 13, no February 30.
pub open spec fn valid_date(y: int, m: int, d: int) -> bool {
    &&& 0 <= y <= 9999
    &&& 1 <= m <= 12
    &&& 1 <= d <= days_in_month(y, m)
}

/// A validated calendar date. Produced only by successful template
/// application, so it always satisfies `wf`.
#[derive(Clone, Copy, Debug, PartialEq, Eq, Structural)]
pub struct CalendarDate {
    pub year: u32,
    pub month: u32,
    pub day: u32,
}

impl CalendarDate {
    /// The date names a real day of the proleptic Gregorian calendar.
    pub open spec fn wf(self) -> bool {
        valid_date(self.year as int, self.month as int, self.day as int)
    }
}

/// The value of the two digits starting at `i`.
pub open spec fn two_digit_val(s: Seq<char>, i: int) -> int {
    digit_val(s[i]) * 10 + digit_val(s[i + 1])
}

/// The value of the four digits starting at `i`.
pub open spec fn four_digit_val(s: Seq<char>, i: int) -> int {
    digit_val(s[i]) * 1000 + digit_val(s[i + 1]) * 100 + digit_val(s[i + 2]) * 10 + digit_val(
        s[i + 3],
    )
}

/// Interpretation of candidate `s` against template `t`, from template
/// position `ti` and candidate position `si`, with the components read so
/// far. Succeeds only if the rest of the template consumes exactly the rest
/// of the candidate, every component ends up read, and the result is a real
/// calendar date.
pub open spec fn apply_from(
    t: Seq<char>,
    s: Seq<char>,
    ti: int,
    si: int,
    y: Option<int>,
    m: Option<int>,
    d: Option<int>,
) -> Option<(int, int, int)>
    decreases t.len() - ti,
{
    if ti < 0 || ti >= t.len() {
        if si == s.len() && y is Some && m is Some && d is Some && valid_date(y->0, m->0, d->0) {
            Some((y->0, m->0, d->0))
        } else {
            None
        }
    } else if t[ti] == '%' {
        if ti + 1 < t.len() {
            let c = t[ti + 1];
            if c == 'd' {
                if si + 2 <= s.len() && 0 <= si && is_digit(s[si]) && is_digit(s[si + 1]) {
                    apply_from(t, s, ti + 2, si + 2, y, m, Some(two_digit_val(s, si)))
                } else {
                    None
                }
            } else if c == 'm' {
                if si + 2 <= s.len() && 0 <= si && is_digit(s[si]) && is_digit(s[si + 1]) {
                    apply_from(t, s, ti + 2, si + 2, y, Some(two_digit_val(s, si)), d)
                } else {
                    None
                }
            } else if c == 'Y' {
                if si + 4 <= s.len() && 0 <= si && is_digit(s[si]) && is_digit(s[si + 1])
                    && is_digit(s[si + 2]) && is_digit(s[si + 3]) {
                    apply_from(t, s, ti + 2, si + 4, Some(four_digit_val(s, si)), m, d)
                } else {
                    None
                }
            } else {
                None
            }
        } else {
            None
        }
    } else {
        if 0 <= si && si < s.len() && s[si] == t[ti] {
            apply_from(t, s, ti + 1, si + 1, y, m, d)
        } else {
            None
        }
    }
}

/// Interpretation of candidate `s` against the whole template `t`.
pub open spec fn apply_template_spec(t: Seq<char>, s: Seq<char>) -> Option<(int, int, int)> {
    apply_from(t, s, 0, 0, None, None, None)
}

proof fn lemma_apply_from_validates(
    t: Seq<char>,
    s: Seq<char>,
    ti: int,
    si: int,
    y: Option<int>,
    m: Option<int>,
    d: Option<int>,
)
    requires
        apply_from(t, s, ti, si, y, m, d) is Some,
    ensures
        ({
            let (yv, mv, dv) = apply_from(t, s, ti, si, y, m, d)->0;
            valid_date(yv, mv, dv)
        }),
    decreases t.len() - ti,
{
    if ti < 0 || ti >= t.len() {
    } else if t[ti] == '%' {
        let c = t[ti + 1];
        if c == 'd' {
            lemma_apply_from_validates(t, s, ti + 2, si + 2, y, m, Some(two_digit_val(s, si)));
        } else if c == 'm' {
            lemma_apply_from_validates(t, s, ti + 2, si + 2, y, Some(two_digit_val(s, si)), d);
        } else {
            lemma_apply_from_validates(t, s, ti + 2, si + 4, Some(four_digit_val(s, si)), m, d);
        }
    } else {
        lemma_apply_from_validates(t, s, ti + 1, si + 1, y, m, d);
    }
}

/// Template interpretation never fabricates a date: whenever it succeeds,
/// the components name a real calendar date. A candidate whose shape fits a
/// template but whose digits encode an impossible day/month combination
/// therefore fails that template's attempt, exactly as a syntactic mismatch
/// would.
pub proof fn lemma_template_never_fabricates(t: Seq<char>, s: Seq<char>)
    ensures
        apply_template_spec(t, s) matches Some(ymd) ==> valid_date(ymd.0, ymd.1, ymd.2),
{
    if apply_template_spec(t, s) is Some {
        lemma_apply_from_validates(t, s, 0, 0, None, None, None);
    }
}

/// The two decimal digits of a value below one hundred.
pub open spec fn two_digit_str(v: int) -> Seq<char> {
    seq![crate::text::digit_char(v / 10), crate::text::digit_char(v % 10)]
}

/// The four decimal digits of a value below ten thousand.
pub open spec fn four_digit_str(v: int) -> Seq<char> {
    seq![
        crate::text::digit_char(v / 1000),
        crate::text::digit_char((v / 100) % 10),
        crate::text::digit_char((v / 10) % 10),
        crate::text::digit_char(v % 10),
    ]
}

/// The text produced by laying out the date (`y`, `m`, `d`) according to the
/// rest of template `t` from position `ti`: each directive becomes the
/// digits of its component, every other character stands as itself.
pub open spec fn format_from(t: Seq<char>, ti: int, y: int, m: int, d: int) -> Option<Seq<char>>
    decreases t.len() - ti,
{
    if ti < 0 || ti >= t.len() {
        Some(Seq::empty())
    } else if t[ti] == '%' {
        if ti + 1 < t.len() {
            let c = t[ti + 1];
            if c == 'd' {
                match format_from(t, ti + 2, y, m, d) {
                    Some(rest) => Some(two_digit_str(d) + rest),
                    None => None,
                }
            } else if c == 'm' {
                match format_from(t, ti + 2, y, m, d) {
                    Some(rest) => Some(two_digit_str(m) + rest),
                    None => None,
                }
            } else if c == 'Y' {
                match format_from(t, ti + 2, y, m, d) {
                    Some(rest) => Some(four_digit_str(y) + rest),
                    None => None,
                }
            } else {
                None
            }
        } else {
            None
        }
    } else {
        match format_from(t, ti + 1, y, m, d) {
            Some(rest) => Some(seq![t[ti]] + rest),
            None => None,
        }
    }
}

/// The text produced by laying out the date according to the whole template.
pub open spec fn format_date_spec(t: Seq<char>, y: int, m: int, d: int) -> Option<Seq<char>> {
    format_from(t, 0, y, m, d)
}

/// Every `%` of the template introduces one of the three directives.
pub open spec fn template_wf(t: Seq<char>) -> bool {
    forall|k: int|
        0 <= k < t.len() && (#[trigger] t[k]) == '%' ==> k + 1 < t.len() && (t[k + 1] == 'd' || t[k
            + 1] == 'm' || t[k + 1] == 'Y')
}

/// The directive `%c` occurs in `t` at or after position `from`.
pub open spec fn has_directive(t: Seq<char>, from: int, c: char) -> bool {
    exists|k: int| from <= k && k + 1 < t.len() && (#[trigger] t[k]) == '%' && t[k + 1] == c
}

/// The template reads all three date components.
pub open spec fn template_complete(t: Seq<char>) -> bool {
    has_directive(t, 0, 'd') && has_directive(t, 0, 'm') && has_directive(t, 0, 'Y')
}

proof fn lemma_digit_char_val(x: int)
    requires
        0 <= x <= 9,
    ensures
        is_digit(crate::text::digit_char(x)),
        digit_val(crate::text::digit_char(x)) == x,
{
}

proof fn lemma_format_total(t: Seq<char>, ti: int, y: int, m: int, d: int)
    requires
        template_wf(t),
        0 <= ti,
    ensures
        format_from(t, ti, y, m, d) is Some,
    decreases t.len() - ti,
{
    if ti < t.len() {
        if t[ti] == '%' {
            lemma_format_total(t, ti + 2, y, m, d);
        } else {
            lemma_format_total(t, ti + 1, y, m, d);
        }
    }
}

proof fn lemma_tail_shift(s: Seq<char>, si: int, head: Seq<char>, rest: Seq<char>)
    requires
        0 <= si <= s.len(),
        s.subrange(si, s.len() as int) == head + rest,
    ensures
        si + head.len() <= s.len(),
        s.subrange(si + head.len(), s.len() as int) =~= rest,
        forall|j: int| 0 <= j < head.len() ==> s[si + j] == #[trigger] head[j],
{
    let tail = s.subrange(si, s.len() as int);
    assert(tail.len() == head.len() + rest.len());
    assert forall|j: int| 0 <= j < head.len() implies s[si + j] == #[trigger] head[j] by {
        assert(tail[j] == s[si + j]);
        assert(tail[j] == head[j]);
    }
    assert forall|j: int|
        0 <= j < rest.len() implies s.subrange(si + head.len(), s.len() as int)[j] == rest[j] by {
        assert(tail[head.len() + j] == s[si + head.len() + j]);
        assert(tail[head.len() + j] == rest[j]);
    }
    assert(s.subrange(si + head.len(), s.len() as int) =~= rest);
}

proof fn lemma_round_trip_from(
    t: Seq<char>,
    s: Seq<char>,
    ti: int,
    si: int,
    y: int,
    m: int,
    d: int,
    ya: Option<int>,
    ma: Option<int>,
    da: Option<int>,
)
    requires
        template_wf(t),
        valid_date(y, m, d),
        0 <= ti <= t.len(),
        0 <= si <= s.len(),
        format_from(t, ti, y, m, d) is Some,
        s.subrange(si, s.len() as int) == format_from(t, ti, y, m, d)->0,
        ya is Some ==> ya == Some(y),
        ma is Some ==> ma == Some(m),
        da is Some ==> da == Some(d),
        ya is None ==> has_directive(t, ti, 'Y'),
        ma is None ==> has_directive(t, ti, 'm'),
        da is None ==> has_directive(t, ti, 'd'),
    ensures
        apply_from(t, s, ti, si, ya, ma, da) == Some((y, m, d)),
    decreases t.len() - ti,
{
    let tail = s.subrange(si, s.len() as int);
    if ti >= t.len() {
        assert(tail.len() == 0);
        assert(si == s.len());
        if ya is None {
            let k = choose|k: int|
                ti <= k && k + 1 < t.len() && (#[trigger] t[k]) == '%' && t[k + 1] == 'Y';
            assert(false);
        }
        if ma is None {
            let k = choose|k: int|
                ti <= k && k + 1 < t.len() && (#[trigger] t[k]) == '%' && t[k + 1] == 'm';
            assert(false);
        }
        if da is None {
            let k = choose|k: int|
                ti <= k && k + 1 < t.len() && (#[trigger] t[k]) == '%' && t[k + 1] == 'd';
            assert(false);
        }
    } else if t[ti] == '%' {
        let c = t[ti + 1];
        let rest = format_from(t, ti + 2, y, m, d)->0;
        if c == 'd' {
            lemma_digit_char_val(d / 10);
            lemma_digit_char_val(d % 10);
            assert(tail == two_digit_str(d) + rest);
            lemma_tail_shift(s, si, two_digit_str(d), rest);
            assert(s[si] == crate::text::digit_char(d / 10));
            assert(s[si + 1] == crate::text::digit_char(d % 10));
            assert(two_digit_val(s, si) == d);
            if ya is None {
                let k = choose|k: int|
                    ti <= k && k + 1 < t.len() && (#[trigger] t[k]) == '%' && t[k + 1] == 'Y';
                assert(k >= ti + 2);
                assert(has_directive(t, ti + 2, 'Y'));
            }
            if ma is None {
                let k = choose|k: int|
                    ti <= k && k + 1 < t.len() && (#[trigger] t[k]) == '%' && t[k + 1] == 'm';
                assert(k >= ti + 2);
                assert(has_directive(t, ti + 2, 'm'));
            }
            lemma_round_trip_from(t, s, ti + 2, si + 2, y, m, d, ya, ma, Some(d));
        } else if c == 'm' {
            lemma_digit_char_val(m / 10);
            lemma_digit_char_val(m % 10);
            assert(tail == two_digit_str(m) + rest);
            lemma_tail_shift(s, si, two_digit_str(m), rest);
            assert(s[si] == crate::text::digit_char(m / 10));
            assert(s[si + 1] == crate::text::digit_char(m % 10));
            assert(two_digit_val(s, si) == m);
            if ya is None {
                let k = choose|k: int|
                    ti <= k && k + 1 < t.len() && (#[trigger] t[k]) == '%' && t[k + 1] == 'Y';
                assert(k >= ti + 2);
                assert(has_directive(t, ti + 2, 'Y'));
            }
            if da is None {
                let k = choose|k: int|
                    ti <= k && k + 1 < t.len() && (#[trigger] t[k]) == '%' && t[k + 1] == 'd';
                assert(k >= ti + 2);
                assert(has_directive(t, ti + 2, 'd'));
            }
            lemma_round_trip_from(t, s, ti + 2, si + 2, y, m, d, ya, Some(m), da);
        } else {
            assert(c == 'Y');
            lemma_digit_char_val(y / 1000);
            lemma_digit_char_val((y / 100) % 10);
            lemma_digit_char_val((y / 10) % 10);
            lemma_digit_char_val(y % 10);
            assert(tail == four_digit_str(y) + rest);
            lemma_tail_shift(s, si, four_digit_str(y), rest);
            assert(s[si] == crate::text::digit_char(y / 1000));
            assert(s[si + 1] == crate::text::digit_char((y / 100) % 10));
            assert(s[si + 2] == crate::text::digit_char((y / 10) % 10));
            assert(s[si + 3] == crate::text::digit_char(y % 10));
            assert(four_digit_val(s, si) == y) by {
                assert(y / 1000 * 1000 + ((y / 100) % 10) * 100 + ((y / 10) % 10) * 10 + y % 10
                    == y) by (nonlinear_arith)
                    requires
                        0 <= y <= 9999,
                ;
            }
            if ma is None {
                let k = choose|k: int|
                    ti <= k && k + 1 < t.len() && (#[trigger] t[k]) == '%' && t[k + 1] == 'm';
                assert(k >= ti + 2);
                assert(has_directive(t, ti + 2, 'm'));
            }
            if da is None {
                let k = choose|k: int|
                    ti <= k && k + 1 < t.len() && (#[trigger] t[k]) == '%' && t[k + 1] == 'd';
                assert(k >= ti + 2);
                assert(has_directive(t, ti + 2, 'd'));
            }
            lemma_round_trip_from(t, s, ti + 2, si + 4, y, m, d, Some(y), ma, da);
        }
    } else {
        let rest = format_from(t, ti + 1, y, m, d)->0;
        assert(tail == seq![t[ti]] + rest);
        lemma_tail_shift(s, si, seq![t[ti]], rest);
        assert(seq![t[ti]][0] == t[ti]);
        assert(s[si + 0] == seq![t[ti]][0]);
        assert(s[si] == t[ti]);
        if ya is None {
            let k = choose|k: int|
                ti <= k && k + 1 < t.len() && (#[trigger] t[k]) == '%' && t[k + 1] == 'Y';
            assert(k >= ti + 1);
            assert(has_directive(t, ti + 1, 'Y'));
        }
        if ma is None {
            let k = choose|k: int|
                ti <= k && k + 1 < t.len() && (#[trigger] t[k]) == '%' && t[k + 1] == 'm';
            assert(k >= ti + 1);
            assert(has_directive(t, ti + 1, 'm'));
        }
        if da is None {
            let k = choose|k: int|
                ti <= k && k + 1 < t.len() && (#[trigger] t[k]) == '%' && t[k + 1] == 'd';
            assert(k >= ti + 1);
            assert(has_directive(t, ti + 1, 'd'));
        }
        lemma_round_trip_from(t, s, ti + 1, si + 1, y, m, d, ya, ma, da);
    }
}

/// Round trip: laying out a real calendar date according to a template that
/// reads all three components, and interpreting the result against that same
/// template, recovers the original date exactly.
pub proof fn lemma_template_round_trip(t: Seq<char>, y: int, m: int, d: int)
    requires
        template_wf(t),
        template_complete(t),
        valid_date(y, m, d),
    ensures
        format_date_spec(t, y, m, d) is Some,
        apply_template_spec(t, format_date_spec(t, y, m, d)->0) == Some((y, m, d)),
{
    lemma_format_total(t, 0, y, m, d);
    let s = format_date_spec(t, y, m, d)->0;
    assert(s.subrange(0, s.len() as int) =~= s);
    lemma_round_trip_from(t, s, 0, 0, y, m, d, None, None, None);
}

/// Converts an `Option<u32>` to its mathematical counterpart.
pub open spec fn opt_int(o: Option<u32>) -> Option<int> {
    match o {
        Some(v) => Some(v as int),
        None => None,
    }
}

fn days_in_month_exec(y: u32, m: u32) -> (r: u32)
    requires
        1 <= m <= 12,
    ensures
        r as int == days_in_month(y as int, m as int),
{
    if m == 2 {
        if y % 4 == 0 && (y % 100 != 0 || y % 400 == 0) {
            29
        } else {
            28
        }
    } else if m == 4 || m == 6 || m == 9 || m == 11 {
        30
    } else {
        31
    }
}

fn valid_date_check(y: u32, m: u32, d: u32) -> (r: bool)
    ensures
        r == valid_date(y as int, m as int, d as int),
{
    if y > 9999 || m < 1 || m > 12 || d < 1 {
        false
    } else {
        d <= days_in_month_exec(y, m)
    }
}

/// Interprets `candidate` against `template`, deciding `apply_template_spec`.
pub fn apply_template(template: &str, candidate: &str) -> (r: Option<CalendarDate>)
    ensures
        match r {
            Some(cd) => apply_template_spec(template@, candidate@) == Some(
                (cd.year as int, cd.month as int, cd.day as int),
            ) && cd.wf(),
            None => apply_template_spec(template@, candidate@) is None,
        },
{
    let tv = str_chars(template);
    let sv = str_chars(candidate);
    let tn = tv.len();
    let sn = sv.len();
    let mut ti: usize = 0;
    let mut si: usize = 0;
    let mut yv: Option<u32> = None;
    let mut mv: Option<u32> = None;
    let mut dv: Option<u32> = None;
    while ti < tn
        invariant
            ti <= tn,
            si <= sn,
            tn == tv@.len(),
            sn == sv@.len(),
            tv@ == template@,
            sv@ == candidate@,
            apply_template_spec(template@, candidate@) == apply_from(
                template@,
                candidate@,
                ti as int,
                si as int,
                opt_int(yv),
                opt_int(mv),
                opt_int(dv),
            ),
        decreases tn - ti,
    {
        let c = tv[ti];
        if c == '%' {
            if ti + 1 >= tn {
                return None;
            }
            let dir = tv[ti + 1];
            if dir == 'd' || dir == 'm' {
                if sn - si < 2 {
                    return None;
                }
                if !digit_check(sv[si]) || !digit_check(sv[si + 1]) {
                    return None;
                }
                let v = digit_value(sv[si]) * 10 + digit_value(sv[si + 1]);
                if dir == 'd' {
                    dv = Some(v);
                } else {
                    mv = Some(v);
                }
                ti = ti + 2;
                si = si + 2;
            } else if dir == 'Y' {
                if sn - si < 4 {
                    return None;
                }
                if !digit_check(sv[si]) || !digit_check(sv[si + 1]) || !digit_check(sv[si + 2])
                    || !digit_check(sv[si + 3]) {
                    return None;
                }
                let v = digit_value(sv[si]) * 1000 + digit_value(sv[si + 1]) * 100 + digit_value(
                    sv[si + 2],
                ) * 10 + digit_value(sv[si + 3]);
                yv = Some(v);
                ti = ti + 2;
                si = si + 4;
            } else {
                return None;
            }
        } else {
            if si >= sn {
                return None;
            }
            if sv[si] != c {
                return None;
            }
            ti = ti + 1;
            si = si + 1;
        }
    }
    if si != sn {
        return None;
    }
    match (yv, mv, dv) {
        (Some(y), Some(m), Some(d)) => {
            if valid_date_check(y, m, d) {
                Some(CalendarDate { year: y, month: m, day: d })
            } else {
                None
            }
        },
        _ => None,
    }
}

/// A format identifier: one of three regional tags or a caller-defined
/// custom tag. Two custom tags with different labels are distinct keys.
#[derive(Debug, Clone, PartialEq, Eq)]
pub enum DateFormat {
    US,
    UK,
    ISO,
    Custom(String),
}

/// The mathematical value of a format identifier.
pub enum FormatIdView {
    US,
    UK,
    ISO,
    Custom(Seq<char>),
}

impl View for DateFormat {
    type V = FormatIdView;

    open spec fn view(&self) -> FormatIdView {
        match self {
            DateFormat::US => FormatIdView::US,
            DateFormat::UK => FormatIdView::UK,
            DateFormat::ISO => FormatIdView::ISO,
            DateFormat::Custom(label) => FormatIdView::Custom(label@),
        }
    }
}

/// Decides equality of format identifiers.
pub fn same_format(a: &DateFormat, b: &DateFormat) -> (r: bool)
    ensures
        r == (a@ == b@),
{
    match (a, b) {
        (DateFormat::US, DateFormat::US) => true,
        (DateFormat::UK, DateFormat::UK) => true,
        (DateFormat::ISO, DateFormat::ISO) => true,
        (DateFormat::Custom(x), DateFormat::Custom(y)) => x.eq(y),
        _ => false,
    }
}

/// The format registry: an ordered mapping from format identifier to layout
/// template, plus an optional default template. Templates are attempted in
/// registry order (seeded regional templates first, then custom templates in
/// insertion order), and the default template last.
pub struct DateConfig {
    pub formats: Vec<(DateFormat, String)>,
    pub default_format: Option<String>,
}

impl DateConfig {
    /// The registered identifiers, in attempt order.
    pub open spec fn ids(&self) -> Seq<FormatIdView> {
        self.formats@.map_values(|p: (DateFormat, String)| p.0@)
    }

    /// The registered templates, in attempt order.
    pub open spec fn templates(&self) -> Seq<Seq<char>> {
        self.formats@.map_values(|p: (DateFormat, String)| p.1@)
    }

    /// Each identifier is registered at most once.
    pub open spec fn wf(&self) -> bool {
        forall|k1: int, k2: int|
            0 <= k1 < k2 < self.ids().len() ==> self.ids()[k1] != self.ids()[k2]
    }

    /// A fresh registry, seeded with the three regional layouts.
    pub fn new() -> (r: Self)
        ensures
            r.wf(),
            r.ids() =~= seq![FormatIdView::US, FormatIdView::UK, FormatIdView::ISO],
            r.templates() =~= seq!["%m/%d/%Y"@, "%d/%m/%Y"@, "%Y-%m-%d"@],
            r.default_format is None,
    {
        let mut formats: Vec<(DateFormat, String)> = Vec::new();
        formats.push((DateFormat::US, String::from_str("%m/%d/%Y")));
        formats.push((DateFormat::UK, String::from_str("%d/%m/%Y")));
        formats.push((DateFormat::ISO, String::from_str("%Y-%m-%d")));
        let r = Self { formats, default_format: None };
        proof {
            assert(r.ids() =~= seq![FormatIdView::US, FormatIdView::UK, FormatIdView::ISO]);
            assert(r.templates() =~= seq!["%m/%d/%Y"@, "%d/%m/%Y"@, "%Y-%m-%d"@]);
        }
        r
    }

    /// Inserts the template for an identifier, or overwrites the template of
    /// an identifier already registered. Never fails; the template is not
    /// validated here, only at parse attempts.
    pub fn add_custom_format(&mut self, format: DateFormat, pattern: String)
        ensures
            final(self).default_format == old(self).default_format,
            (exists|k: int| 0 <= k < old(self).ids().len() && old(self).ids()[k] == format@)
                ==> ({
                    let k = choose|k: int|
                        0 <= k < old(self).ids().len() && old(self).ids()[k] == format@;
                    old(self).wf() ==> final(self).formats@ =~= old(self).formats@.update(
                        k,
                        (format, pattern),
                    )
                }),
            !(exists|k: int| 0 <= k < old(self).ids().len() && old(self).ids()[k] == format@)
                ==> final(self).formats@ =~= old(self).formats@.push((format, pattern)),
            old(self).wf() ==> final(self).wf(),
    {
        let n = self.formats.len();
        let mut k: usize = 0;
        while k < n
            invariant
                k <= n,
                n == self.formats@.len(),
                *self == *old(self),
                forall|t: int| 0 <= t < k ==> self.ids()[t] != format@,
            decreases n - k,
        {
            if same_format(&self.formats[k].0, &format) {
                proof {
                    assert(self.ids()[k as int] == format@);
                }
                self.formats.remove(k);
                self.formats.insert(k, (format, pattern));
                proof {
                    assert(self.formats@ =~= old(self).formats@.update(
                        k as int,
                        (format, pattern),
                    ));
                    assert(self.ids() =~= old(self).ids().update(k as int, format@));
                    if old(self).wf() {
                        let kk = choose|kk: int|
                            0 <= kk < old(self).ids().len() && old(self).ids()[kk] == format@;
                        assert(kk == k as int);
                        assert(self.wf());
                    }
                }
                return ;
            }
            k = k + 1;
        }
        self.formats.push((format, pattern));
        proof {
            assert(self.ids() =~= old(self).ids().push(format@));
            if old(self).wf() {
                assert(self.wf());
            }
        }
    }

    /// Sets or replaces the single fallback template. Never fails.
    pub fn set_default_format(&mut self, pattern: String)
        ensures
            final(self).formats == old(self).formats,
            final(self).default_format == Some(pattern),
    {
        self.default_format = Some(pattern);
    }
}

/// Why a parse attempt failed.
#[derive(Debug, Clone, PartialEq, Eq)]
pub enum DateParseError {
    /// Every registered non-default template failed and no default template
    /// is configured; carries the original candidate string.
    InvalidFormat(String),
    /// The registry contained no templates at all.
    IncompleteData,
    /// The default-template attempt failed after every registered template
    /// had failed; carries a fixed message.
    ParseError(String),
}

/// The first successful interpretation of `s` against `ts[k..]`, in order.
pub open spec fn first_match_from(ts: Seq<Seq<char>>, s: Seq<char>, k: int) -> Option<
    (int, int, int),
>
    decreases ts.len() - k,
{
    if k < 0 || k >= ts.len() {
        None
    } else {
        match apply_template_spec(ts[k], s) {
            Some(r) => Some(r),
            None => first_match_from(ts, s, k + 1),
        }
    }
}

proof fn lemma_first_match_skip(ts: Seq<Seq<char>>, s: Seq<char>, j: int, k: int)
    requires
        0 <= j <= k <= ts.len(),
        forall|i: int| j <= i < k ==> apply_template_spec(#[trigger] ts[i], s) is None,
    ensures
        first_match_from(ts, s, j) == first_match_from(ts, s, k),
    decreases k - j,
{
    if j < k {
        lemma_first_match_skip(ts, s, j + 1, k);
    }
}

/// Round trip through a registry: when the candidate was laid out by the
/// template at position `k` and no earlier template accepts it, the ordered
/// attempt over the registry recovers the original date exactly — so
/// `parse_date` returns it.
pub proof fn lemma_registry_round_trip(ts: Seq<Seq<char>>, k: int, y: int, m: int, d: int)
    requires
        0 <= k < ts.len(),
        template_wf(ts[k]),
        template_complete(ts[k]),
        valid_date(y, m, d),
        forall|j: int|
            0 <= j < k ==> apply_template_spec(
                #[trigger] ts[j],
                format_date_spec(ts[k], y, m, d)->0,
            ) is None,
    ensures
        format_date_spec(ts[k], y, m, d) is Some,
        first_match_from(ts, format_date_spec(ts[k], y, m, d)->0, 0) == Some((y, m, d)),
{
    lemma_template_round_trip(ts[k], y, m, d);
    let s = format_date_spec(ts[k], y, m, d)->0;
    lemma_first_match_skip(ts, s, 0, k);
}

/// The date parser: owns a registry and interprets candidate strings
/// against it.
pub struct DateParserImpl {
    pub config: DateConfig,
}

impl DateParserImpl {
    pub fn new(config: DateConfig) -> (r: Self)
        ensures
            r.config == config,
    {
        Self { config }
    }

    /// Attempts every registered template in registry order and returns the
    /// first success; otherwise attempts the default template if one is
    /// configured. On failure, reports the most specific error: the failure
    /// of the default attempt when a default is configured, the failure of
    /// the registered attempts otherwise, and a degenerate-registry error
    /// when there was nothing to attempt at all.
    pub fn parse_date(&self, date_str: &str) -> (r: Result<CalendarDate, DateParseError>)
        ensures
            ({
                let ts = self.config.templates();
                let s = date_str@;
                match first_match_from(ts, s, 0) {
                    Some(ymd) => r matches Ok(cd) && cd.year as int == ymd.0 && cd.month as int
                        == ymd.1 && cd.day as int == ymd.2,
                    None => match self.config.default_format {
                        Some(dt) => match apply_template_spec(dt@, s) {
                            Some(ymd) => r matches Ok(cd) && cd.year as int == ymd.0 && cd.month
                                as int == ymd.1 && cd.day as int == ymd.2,
                            None => r matches Err(e) && e matches DateParseError::ParseError(m)
                                && m@ == "Failed with default format"@,
                        },
                        None => if ts.len() > 0 {
                            r matches Err(e) && e matches DateParseError::InvalidFormat(m) && m@
                                == s
                        } else {
                            r matches Err(e) && e is IncompleteData
                        },
                    },
                }
            }),
            r matches Ok(cd) ==> cd.wf(),
    {
        let ghost ts = self.config.templates();
        let n = self.config.formats.len();
        let mut k: usize = 0;
        while k < n
            invariant
                k <= n,
                n == self.config.formats@.len(),
                ts == self.config.templates(),
                first_match_from(ts, date_str@, 0) == first_match_from(ts, date_str@, k as int),
            decreases n - k,
        {
            match apply_template(self.config.formats[k].1.as_str(), date_str) {
                Some(cd) => {
                    proof {
                        assert(ts[k as int] == self.config.formats@[k as int].1@);
                    }
                    return Ok(cd);
                },
                None => {
                    proof {
                        assert(ts[k as int] == self.config.formats@[k as int].1@);
                        assert(first_match_from(ts, date_str@, k as int) == first_match_from(
                            ts,
                            date_str@,
                            k as int + 1,
                        ));
                    }
                },
            }
            k = k + 1;
        }
        match &self.config.default_format {
            Some(dt) => {
                match apply_template(dt.as_str(), date_str) {
                    Some(cd) => Ok(cd),
                    None => Err(
                        DateParseError::ParseError(String::from_str("Failed with default format")),
                    ),
                }
            },
            None => {
                if n > 0 {
                    Err(DateParseError::InvalidFormat(String::from_str(date_str)))
                } else {
                    Err(DateParseError::IncompleteData)
                }
            },
        }
    }
}

} // verus!
