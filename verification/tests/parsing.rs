use datefind::date_parsing::{
    CalendarDate, DateConfig, DateFormat, DateParseError, DateParserImpl,
};

fn parser_with_seeds() -> DateParserImpl {
    DateParserImpl::new(DateConfig::new())
}

#[test]
fn iso_candidate_parses_with_seeded_templates() {
    let parser = parser_with_seeds();
    let date = parser.parse_date("1990-05-12").unwrap();
    assert_eq!(
        date,
        CalendarDate {
            year: 1990,
            month: 5,
            day: 12
        }
    );
}

#[test]
fn month_thirteen_is_invalid_format() {
    let parser = parser_with_seeds();
    match parser.parse_date("13/13/2020") {
        Err(DateParseError::InvalidFormat(s)) => assert_eq!(s, "13/13/2020"),
        other => panic!("expected InvalidFormat, got {:?}", other),
    }
}

#[test]
fn empty_registry_reports_incomplete_data() {
    let config = DateConfig {
        formats: Vec::new(),
        default_format: None,
    };
    let parser = DateParserImpl::new(config);
    match parser.parse_date("1990-05-12") {
        Err(DateParseError::IncompleteData) => {}
        other => panic!("expected IncompleteData, got {:?}", other),
    }
}

#[test]
fn us_template_wins_for_slash_candidates() {
    let parser = parser_with_seeds();
    let date = parser.parse_date("05/12/1990").unwrap();
    assert_eq!(
        date,
        CalendarDate {
            year: 1990,
            month: 5,
            day: 12
        }
    );
}

#[test]
fn uk_only_registry_recovers_day_first_layout() {
    let mut config = DateConfig {
        formats: Vec::new(),
        default_format: None,
    };
    config.add_custom_format(DateFormat::UK, String::from("%d/%m/%Y"));
    let parser = DateParserImpl::new(config);
    let date = parser.parse_date("05/12/1990").unwrap();
    assert_eq!(
        date,
        CalendarDate {
            year: 1990,
            month: 12,
            day: 5
        }
    );
}

#[test]
fn impossible_april_day_fails() {
    let mut config = DateConfig {
        formats: Vec::new(),
        default_format: None,
    };
    config.add_custom_format(DateFormat::UK, String::from("%d/%m/%Y"));
    let parser = DateParserImpl::new(config);
    match parser.parse_date("31/04/2020") {
        Err(DateParseError::InvalidFormat(s)) => assert_eq!(s, "31/04/2020"),
        other => panic!("expected InvalidFormat, got {:?}", other),
    }
}

#[test]
fn leap_year_rules_decide_february() {
    let parser = parser_with_seeds();
    assert!(parser.parse_date("29/02/2019").is_err());
    assert_eq!(
        parser.parse_date("29/02/2020").unwrap(),
        CalendarDate {
            year: 2020,
            month: 2,
            day: 29
        }
    );
    assert!(parser.parse_date("29/02/1900").is_err());
    assert_eq!(
        parser.parse_date("29/02/2000").unwrap(),
        CalendarDate {
            year: 2000,
            month: 2,
            day: 29
        }
    );
}

#[test]
fn default_template_is_the_fallback() {
    let mut config = DateConfig::new();
    config.set_default_format(String::from("%Y.%m.%d"));
    let parser = DateParserImpl::new(config);
    let date = parser.parse_date("2020.01.02").unwrap();
    assert_eq!(
        date,
        CalendarDate {
            year: 2020,
            month: 1,
            day: 2
        }
    );
}

#[test]
fn failing_default_template_reports_parse_error() {
    let mut config = DateConfig::new();
    config.set_default_format(String::from("%Y.%m.%d"));
    let parser = DateParserImpl::new(config);
    match parser.parse_date("never a date") {
        Err(DateParseError::ParseError(msg)) => {
            assert_eq!(msg, "Failed with default format")
        }
        other => panic!("expected ParseError, got {:?}", other),
    }
}

#[test]
fn custom_format_extends_the_registry() {
    let mut config = DateConfig::new();
    config.add_custom_format(DateFormat::Custom(String::from("dots")), String::from("%d.%m.%Y"));
    let parser = DateParserImpl::new(config);
    let date = parser.parse_date("31.12.1999").unwrap();
    assert_eq!(
        date,
        CalendarDate {
            year: 1999,
            month: 12,
            day: 31
        }
    );
}

#[test]
fn adding_a_format_twice_overwrites_its_template() {
    let mut config = DateConfig::new();
    config.add_custom_format(DateFormat::Custom(String::from("x")), String::from("%d.%m.%Y"));
    config.add_custom_format(DateFormat::Custom(String::from("x")), String::from("%Y!%m!%d"));
    assert_eq!(config.formats.len(), 4);
    let parser = DateParserImpl::new(config);
    assert!(parser.parse_date("31.12.1999").is_err());
    assert_eq!(
        parser.parse_date("1999!12!31").unwrap(),
        CalendarDate {
            year: 1999,
            month: 12,
            day: 31
        }
    );
}

#[test]
fn custom_tags_with_different_labels_are_distinct() {
    let mut config = DateConfig::new();
    config.add_custom_format(DateFormat::Custom(String::from("a")), String::from("%d~%m~%Y"));
    config.add_custom_format(DateFormat::Custom(String::from("b")), String::from("%Y~%m~%d"));
    assert_eq!(config.formats.len(), 5);
    let parser = DateParserImpl::new(config);
    assert!(parser.parse_date("01~02~2003").is_ok());
    assert!(parser.parse_date("2003~02~01").is_ok());
}

#[test]
fn trailing_text_fails_the_template() {
    let parser = parser_with_seeds();
    assert!(parser.parse_date("1990-05-12 extra").is_err());
}

#[test]
fn incomplete_template_never_succeeds() {
    let mut config = DateConfig {
        formats: Vec::new(),
        default_format: None,
    };
    config.add_custom_format(DateFormat::Custom(String::from("dm")), String::from("%d/%m"));
    let parser = DateParserImpl::new(config);
    assert!(parser.parse_date("05/12").is_err());
}
