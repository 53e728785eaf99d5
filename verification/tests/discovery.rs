use datefind::filtering::find_dates;
use datefind::patterns::DatePatternType;

fn has(v: &[(String, DatePatternType)], s: &str, t: DatePatternType) -> bool {
    v.iter().any(|p| p.0 == s && p.1 == t)
}

fn count(v: &[(String, DatePatternType)], s: &str, t: DatePatternType) -> usize {
    v.iter().filter(|p| p.0 == s && p.1 == t).count()
}

#[test]
fn mixed_birth_and_numeric_dates() {
    let (set, found) = find_dates(String::from(
        "Date of Birth: 05/12/1990 and another 12/31/2001",
    ));
    assert!(found);
    assert!(has(&set, "05/12/1990", DatePatternType::DateOfBirthWithDashes));
    assert!(has(&set, "12/31/2001", DatePatternType::NumericSlash));
    assert!(has(&set, "05/12/1990", DatePatternType::NumericSlash));
}

#[test]
fn verbose_short_month() {
    let (set, found) = find_dates(String::from("Issued 3 Jan 1999"));
    assert!(found);
    assert!(has(&set, "3 Jan 1999", DatePatternType::VerboseDateShortMonth));
}

#[test]
fn no_dates_at_all() {
    let (set, found) = find_dates(String::from("no dates here"));
    assert!(set.is_empty());
    assert!(!found);
}

#[test]
fn single_concatenated_match_is_the_whole_result() {
    let (set, found) = find_dates(String::from("id 12345678."));
    assert!(found);
    assert_eq!(set.len(), 1);
    assert!(has(&set, "12345678", DatePatternType::NumericConcatenated));
}

#[test]
fn short_digit_runs_are_not_dates() {
    let (set, found) = find_dates(String::from("nothing 123 here 4567"));
    assert!(set.is_empty());
    assert!(!found);
}

#[test]
fn scanning_twice_gives_equal_sets() {
    let text = "Date of Birth: 05/12/1990 and 3 March 2001, id 12345678";
    let (a, _) = find_dates(String::from(text));
    let (b, _) = find_dates(String::from(text));
    assert_eq!(a.len(), b.len());
    for p in &a {
        assert!(b.iter().any(|q| q == p));
    }
    for q in &b {
        assert!(a.iter().any(|p| p == q));
    }
}

#[test]
fn duplicate_occurrences_collapse() {
    let (set, _) = find_dates(String::from("11/11/1111 and 11/11/1111"));
    assert_eq!(count(&set, "11/11/1111", DatePatternType::NumericSlash), 1);
    assert_eq!(count(&set, "11/11/1111", DatePatternType::NumericSpace), 1);
}

#[test]
fn same_substring_under_two_tags_is_kept_twice() {
    let (set, _) = find_dates(String::from("born 3 March 2001"));
    assert!(has(&set, "3 March 2001", DatePatternType::VerboseDateShortMonth));
    assert!(has(&set, "3 March 2001", DatePatternType::VerboseDateLongMonth));
}

#[test]
fn extended_month_abbreviation() {
    let (set, found) = find_dates(String::from("on 5 Sept 2010 it was"));
    assert!(found);
    assert!(has(&set, "5 Sept 2010", DatePatternType::VerboseDateShortMonth));
}

#[test]
fn birth_date_without_space_and_concatenated() {
    let (set, found) = find_dates(String::from("Date of Birth:19900512"));
    assert!(found);
    assert!(has(&set, "19900512", DatePatternType::DateOfBirthConcatenated));
    assert!(has(&set, "19900512", DatePatternType::NumericConcatenated));
}

#[test]
fn birth_date_with_spaces_as_separators() {
    let (set, found) = find_dates(String::from("Date of Birth: 05 12 1990"));
    assert!(found);
    assert!(has(&set, "05 12 1990", DatePatternType::DateOfBirthWithSpaces));
}

#[test]
fn word_boundary_blocks_embedded_numeric_date() {
    let (set, found) = find_dates(String::from("x12/31/2001"));
    assert!(set.is_empty());
    assert!(!found);
}

#[test]
fn two_digit_day_verbose_date() {
    let (set, found) = find_dates(String::from("dated 28 February 1999."));
    assert!(found);
    assert!(has(&set, "28 February 1999", DatePatternType::VerboseDateLongMonth));
}

#[test]
fn dotted_numeric_date() {
    let (set, found) = find_dates(String::from("seen 01.02.2003 today"));
    assert!(found);
    assert!(has(&set, "01.02.2003", DatePatternType::NumericSlash));
    assert!(has(&set, "01.02.2003", DatePatternType::NumericSpace));
}

#[test]
fn nine_digit_run_is_not_word_bounded() {
    let (set, _) = find_dates(String::from("ref 123456789 end"));
    assert!(!set
        .iter()
        .any(|p| p.1 == DatePatternType::NumericConcatenated));
}

#[test]
fn descriptions_are_fixed() {
    assert_eq!(
        DatePatternType::NumericSlash.description(),
        "Dates with slashes or dots between numbers"
    );
    assert_eq!(
        DatePatternType::NumericSpace.description(),
        "Dates with spaces between numbers"
    );
    assert_eq!(
        DatePatternType::NumericConcatenated.description(),
        "Concatenated numeric dates without separators"
    );
    assert_eq!(
        DatePatternType::DateOfBirthWithDashes.description(),
        "Date of birth with dashes or dots as separators"
    );
    assert_eq!(
        DatePatternType::DateOfBirthConcatenated.description(),
        "Concatenated date of birth without separators"
    );
    assert_eq!(
        DatePatternType::DateOfBirthWithSpaces.description(),
        "Date of birth with spaces as separators"
    );
    assert_eq!(
        DatePatternType::VerboseDateShortMonth.description(),
        "Verbose dates with short month names"
    );
    assert_eq!(
        DatePatternType::VerboseDateLongMonth.description(),
        "Verbose dates with full month names"
    );
}

#[test]
fn tab_counts_as_whitespace_in_verbose_dates() {
    let (set, found) = find_dates(String::from("on 3\tJan\t1999 it was"));
    assert!(found);
    assert!(has(&set, "3\tJan\t1999", DatePatternType::VerboseDateShortMonth));
}

#[test]
fn birth_date_with_dot_separators() {
    let (set, found) = find_dates(String::from("Date of Birth: 05.12.1990"));
    assert!(found);
    assert!(has(&set, "05.12.1990", DatePatternType::DateOfBirthWithDashes));
}

#[test]
fn five_digit_year_blocks_the_match() {
    let (set, _) = find_dates(String::from("seen 12/31/20012 here"));
    assert!(!set.iter().any(|p| p.1 == DatePatternType::NumericSlash));
}

#[test]
fn underscore_is_a_word_character() {
    let (set, found) = find_dates(String::from("_12345678 end"));
    assert!(set.is_empty());
    assert!(!found);
}
