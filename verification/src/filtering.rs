//! The date finder: scans a text blob against every surface form of the
//! pattern catalog and collects every match, deduplicated.
//!
//! `found_set` is the mathematical result of the scan: for each surface
//! form, the text is walked left to right; at each position where the form's
//! rule matches, the candidate substring is collected and the walk resumes
//! after the match's end, so overlapping occurrences of one form are not
//! separately reported. `find_dates` returns exactly that set.

use vstd::prelude::*;
use crate::patterns::{DatePatternType, match_at, pattern_match_at, lemma_match_at_bounds};
use crate::text::str_chars;

verus! {

/// The candidates collected for surface form `p` by walking `s` from
/// position `i`: leftmost matches, resuming after each match's end.
pub open spec fn scan_from(p: DatePatternType, s: Seq<char>, i: int) -> Set<
    (Seq<char>, DatePatternType),
>
    decreases s.len() - i,
{
    if i < 0 || i >= s.len() {
        Set::empty()
    } else {
        match match_at(p, s, i) {
            Some((l, a, b)) => {
                if 1 <= l && i + l <= s.len() {
                    scan_from(p, s, i + l).insert((s.subrange(a, b), p))
                } else {
                    Set::empty()
                }
            },
            None => scan_from(p, s, i + 1),
        }
    }
}

/// Every candidate match that discovery reports for text `s`: the union of
/// the per-form scans.
pub open spec fn found_set(s: Seq<char>) -> Set<(Seq<char>, DatePatternType)> {
    scan_from(DatePatternType::NumericSlash, s, 0) + scan_from(DatePatternType::NumericSpace, s, 0)
        + scan_from(DatePatternType::NumericConcatenated, s, 0) + scan_from(
        DatePatternType::DateOfBirthWithDashes,
        s,
        0,
    ) + scan_from(DatePatternType::DateOfBirthConcatenated, s, 0) + scan_from(
        DatePatternType::DateOfBirthWithSpaces,
        s,
        0,
    ) + scan_from(DatePatternType::VerboseDateShortMonth, s, 0) + scan_from(
        DatePatternType::VerboseDateLongMonth,
        s,
        0,
    )
}

/// The set of (substring, tag) pairs held by a result vector.
pub open spec fn matches_view(v: Seq<(String, DatePatternType)>) -> Set<
    (Seq<char>, DatePatternType),
> {
    Set::new(
        |pr: (Seq<char>, DatePatternType)|
            exists|k: int|
                0 <= k < v.len() && (#[trigger] v[k]).0@ == pr.0 && v[k].1 == pr.1,
    )
}

/// No two entries of the result vector hold the same (substring, tag) pair.
pub open spec fn no_duplicates(v: Seq<(String, DatePatternType)>) -> bool {
    forall|k1: int, k2: int|
        0 <= k1 < k2 < v.len() ==> !((#[trigger] v[k1]).0@ == (#[trigger] v[k2]).0@ && v[k1].1
            == v[k2].1)
}

/// Whether `out` already holds the pair (`cand`, `p`).
fn contains_pair(out: &Vec<(String, DatePatternType)>, cand: &String, p: DatePatternType) -> (r:
    bool)
    ensures
        r == matches_view(out@).contains((cand@, p)),
{
    let n = out.len();
    let mut k: usize = 0;
    while k < n
        invariant
            k <= n,
            n == out@.len(),
            forall|t: int| 0 <= t < k ==> !((#[trigger] out@[t]).0@ == cand@ && out@[t].1 == p),
        decreases n - k,
    {
        if out[k].0.eq(cand) && out[k].1 == p {
            return true;
        }
        k = k + 1;
    }
    false
}

proof fn lemma_matches_view_push(v: Seq<(String, DatePatternType)>, x: (String, DatePatternType))
    ensures
        matches_view(v.push(x)) =~= matches_view(v).insert((x.0@, x.1)),
{
    let w = v.push(x);
    assert forall|pr: (Seq<char>, DatePatternType)|
        matches_view(w).contains(pr) implies matches_view(v).insert((x.0@, x.1)).contains(pr) by {
        let k = choose|k: int| 0 <= k < w.len() && (#[trigger] w[k]).0@ == pr.0 && w[k].1 == pr.1;
        if k < v.len() {
            assert(v[k] == w[k]);
            assert(matches_view(v).contains(pr));
        } else {
            assert(w[k] == x);
        }
    }
    assert forall|pr: (Seq<char>, DatePatternType)|
        matches_view(v).insert((x.0@, x.1)).contains(pr) implies matches_view(w).contains(pr) by {
        if pr == ((x.0@, x.1)) {
            assert(0 <= v.len() < w.len() && (#[trigger] w[v.len() as int]).0@ == pr.0 && w[
                v.len() as int
            ].1 == pr.1);
        } else {
            let k = choose|k: int| 0 <= k < v.len() && (#[trigger] v[k]).0@ == pr.0 && v[k].1
                == pr.1;
            assert(w[k] == v[k]);
        }
    }
}

/// Collects the scan of surface form `p` over `text` into `out`,
/// deduplicating against what is already there.
fn scan_pattern(
    text: &str,
    chars: &Vec<char>,
    p: DatePatternType,
    out: &mut Vec<(String, DatePatternType)>,
)
    requires
        chars@ == text@,
    ensures
        matches_view(final(out)@) =~= matches_view(old(out)@) + scan_from(p, chars@, 0),
        no_duplicates(old(out)@) ==> no_duplicates(final(out)@),
{
    let n = chars.len();
    let mut i: usize = 0;
    while i < n
        invariant
            i <= n,
            n == chars@.len(),
            chars@ == text@,
            matches_view(out@) + scan_from(p, chars@, i as int) =~= matches_view(old(out)@)
                + scan_from(p, chars@, 0),
            no_duplicates(old(out)@) ==> no_duplicates(out@),
        decreases n - i,
    {
        match pattern_match_at(p, chars, i) {
            Some((l, a, b)) => {
                proof {
                    lemma_match_at_bounds(p, chars@, i as int);
                }
                let cand_str = text.substring_char(a, b);
                let cand = String::from_str(cand_str);
                let ghost pre = out@;
                if !contains_pair(out, &cand, p) {
                    let ghost x = (cand, p);
                    out.push((cand, p));
                    proof {
                        lemma_matches_view_push(pre, x);
                        assert(matches_view(out@) =~= matches_view(pre).insert(
                            (chars@.subrange(a as int, b as int), p),
                        ));
                        assert(no_duplicates(pre) ==> no_duplicates(out@));
                    }
                } else {
                    proof {
                        assert(matches_view(out@) =~= matches_view(pre).insert(
                            (chars@.subrange(a as int, b as int), p),
                        ));
                    }
                }
                proof {
                    assert(matches_view(out@) + scan_from(p, chars@, i + l) =~= matches_view(pre)
                        + scan_from(p, chars@, i as int));
                }
                i = i + l;
            },
            None => {
                proof {
                    assert(scan_from(p, chars@, i as int) == scan_from(p, chars@, i + 1));
                }
                i = i + 1;
            },
        }
    }
    proof {
        assert(scan_from(p, chars@, n as int) =~= Set::empty());
    }
}

proof fn lemma_scan_no_match(p: DatePatternType, s: Seq<char>, k: int)
    requires
        0 <= k,
        forall|j: int| k <= j < s.len() ==> match_at(p, s, j) is None,
    ensures
        scan_from(p, s, k) =~= Set::empty(),
    decreases s.len() - k,
{
    if k < s.len() {
        lemma_scan_no_match(p, s, k + 1);
    }
}

proof fn lemma_scan_single(p: DatePatternType, s: Seq<char>, k: int, i: int)
    requires
        0 <= k <= i < s.len(),
        match_at(p, s, i) is Some,
        forall|j: int| k <= j < s.len() && j != i ==> match_at(p, s, j) is None,
    ensures
        scan_from(p, s, k) =~= Set::empty().insert(
            (s.subrange((match_at(p, s, i)->0).1, (match_at(p, s, i)->0).2), p),
        ),
    decreases i - k,
{
    if k == i {
        let (l, a, b) = match_at(p, s, i)->0;
        lemma_match_at_bounds(p, s, i);
        lemma_scan_no_match(p, s, i + l);
    } else {
        lemma_scan_single(p, s, k + 1, i);
    }
}

/// When a text contains exactly one occurrence of one recognized surface
/// form, discovery reports exactly that (substring, tag) pair.
pub proof fn lemma_unique_match(s: Seq<char>, p: DatePatternType, i: int)
    requires
        0 <= i < s.len(),
        match_at(p, s, i) is Some,
        forall|q: DatePatternType, j: int|
            0 <= j < s.len() && #[trigger] match_at(q, s, j) is Some ==> q == p && j == i,
    ensures
        found_set(s) =~= Set::empty().insert(
            (s.subrange((match_at(p, s, i)->0).1, (match_at(p, s, i)->0).2), p),
        ),
        !found_set(s).is_empty(),
{
    assert forall|q: DatePatternType| q != p implies scan_from(q, s, 0) =~= Set::empty() by {
        assert(forall|j: int| 0 <= j < s.len() ==> match_at(q, s, j) is None);
        lemma_scan_no_match(q, s, 0);
    }
    lemma_scan_single(p, s, 0, i);
    let pr = (s.subrange((match_at(p, s, i)->0).1, (match_at(p, s, i)->0).2), p);
    assert(found_set(s) == Set::empty().insert(pr));
    assert(found_set(s).len() == 1);
}

/// When a text contains no occurrence of any recognized surface form,
/// discovery reports the empty set.
pub proof fn lemma_no_match_empty(s: Seq<char>)
    requires
        forall|q: DatePatternType, j: int|
            0 <= j < s.len() ==> #[trigger] match_at(q, s, j) is None,
    ensures
        found_set(s) =~= Set::empty(),
        found_set(s).is_empty(),
{
    assert forall|q: DatePatternType| #[trigger] scan_from(q, s, 0) =~= Set::empty() by {
        lemma_scan_no_match(q, s, 0);
    }
}

/// Discovery is deterministic: any two results that `find_dates` may return
/// for the same text are set-equal.
pub proof fn lemma_find_dates_idempotent(
    s: Seq<char>,
    r1: Set<(Seq<char>, DatePatternType)>,
    r2: Set<(Seq<char>, DatePatternType)>,
)
    requires
        r1 == found_set(s),
        r2 == found_set(s),
    ensures
        r1 =~= r2,
{
}

/// Scans `text` against every surface form of the catalog and returns every
/// candidate match as a (substring, tag) pair, deduplicated, together with a
/// flag that is true exactly when at least one match was found.
pub fn find_dates(text: String) -> (r: (Vec<(String, DatePatternType)>, bool))
    ensures
        matches_view(r.0@) == found_set(text@),
        no_duplicates(r.0@),
        r.1 == (r.0@.len() != 0),
        r.1 == !found_set(text@).is_empty(),
{
    let chars = str_chars(text.as_str());
    let mut out: Vec<(String, DatePatternType)> = Vec::new();
    proof {
        assert(matches_view(out@) =~= Set::empty());
    }
    scan_pattern(text.as_str(), &chars, DatePatternType::NumericSlash, &mut out);
    scan_pattern(text.as_str(), &chars, DatePatternType::NumericSpace, &mut out);
    scan_pattern(text.as_str(), &chars, DatePatternType::NumericConcatenated, &mut out);
    scan_pattern(text.as_str(), &chars, DatePatternType::DateOfBirthWithDashes, &mut out);
    scan_pattern(text.as_str(), &chars, DatePatternType::DateOfBirthConcatenated, &mut out);
    scan_pattern(text.as_str(), &chars, DatePatternType::DateOfBirthWithSpaces, &mut out);
    scan_pattern(text.as_str(), &chars, DatePatternType::VerboseDateShortMonth, &mut out);
    scan_pattern(text.as_str(), &chars, DatePatternType::VerboseDateLongMonth, &mut out);
    proof {
        assert(matches_view(out@) =~= found_set(text@));
    }
    let any = out.len() != 0;
    proof {
        if out@.len() != 0 {
            let pr = (out@[0].0@, out@[0].1);
            assert(matches_view(out@).contains(pr));
            assert(!found_set(text@).is_empty());
        } else {
            assert forall|pr: (Seq<char>, DatePatternType)| !found_set(text@).contains(pr) by {
                assert(!matches_view(out@).contains(pr));
            }
            assert(found_set(text@).is_empty());
        }
    }
    (out, any)
}

} // verus!
