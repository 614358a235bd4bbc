use logs::scheme::ConfigError;
use logs::scheme::LogScheme;
use logs::scheme::ParseError;
use logs::scheme::RegExtractor;

fn expect_config_error(r: Result<RegExtractor, ConfigError>) -> ConfigError {
    match r {
        Err(e) => e,
        Ok(_) => panic!("expected a configuration error"),
    }
}

fn demo_scheme() -> LogScheme {
    LogScheme {
        date_time: r"\d{4}-\d{2}-\d{2}".to_string(),
        host: r"\w+".to_string(),
        service: r"\w+".to_string(),
        message: r".*".to_string(),
        whole_line: "{d} {h} {s}: {m}".to_string(),
        split_pattern: r"\d{4}-\d{2}-\d{2}".to_string(),
    }
}

#[test]
fn extracts_the_four_fields() {
    let ex = RegExtractor::new(demo_scheme(), "%Y-%m-%d").unwrap();
    let line = "2024-01-01 hostA svcA: boot ok".to_string();
    let fields = ex.get_fields(&line).unwrap();
    assert_eq!(fields.date_time, "2024-01-01");
    assert_eq!(fields.host, "hostA");
    assert_eq!(fields.service, "svcA");
    assert_eq!(fields.message, "boot ok");
}

#[test]
fn non_matching_candidate_yields_none() {
    let ex = RegExtractor::new(demo_scheme(), "%Y-%m-%d").unwrap();
    let line = "not a log entry".to_string();
    assert!(ex.get_fields(&line).is_none());
}

#[test]
fn timestamp_micros_at_epoch_plus_one_second() {
    let mut scheme = demo_scheme();
    scheme.date_time = r"\d{4}-\d{2}-\d{2} \d{2}:\d{2}:\d{2}".to_string();
    let ex = RegExtractor::new(scheme, "%Y-%m-%d %H:%M:%S").unwrap();
    let micros = ex.timestamp_micros("2024-01-01 00:00:01").unwrap();
    assert_eq!(micros, 1704067201 * 1_000_000);
}

#[test]
fn timestamp_micros_counts_subseconds() {
    let ex = RegExtractor::new(demo_scheme(), "%Y-%m-%d %H:%M:%S%.6f").unwrap();
    let micros = ex.timestamp_micros("2024-01-01 00:00:01.000250").unwrap();
    assert_eq!(micros, 1704067201 * 1_000_000 + 250);
}

#[test]
fn unknown_placeholder_is_a_template_error() {
    let mut scheme = demo_scheme();
    scheme.whole_line = "{d} {x}".to_string();
    let err = expect_config_error(RegExtractor::new(scheme, "%Y-%m-%d"));
    assert_eq!(err, ConfigError::Template);
}

#[test]
fn malformed_braces_are_a_template_error() {
    let mut scheme = demo_scheme();
    scheme.whole_line = "{d} {h".to_string();
    let err = expect_config_error(RegExtractor::new(scheme, "%Y-%m-%d"));
    assert_eq!(err, ConfigError::Template);
}

#[test]
fn invalid_expanded_pattern_is_a_pattern_error() {
    let mut scheme = demo_scheme();
    scheme.date_time = r"[".to_string();
    let err = expect_config_error(RegExtractor::new(scheme, "%Y-%m-%d"));
    assert_eq!(err, ConfigError::Pattern);
}

#[test]
fn extra_capture_group_is_a_groups_error() {
    let mut scheme = demo_scheme();
    scheme.message = r"(.*)".to_string();
    let err = expect_config_error(RegExtractor::new(scheme, "%Y-%m-%d"));
    assert_eq!(err, ConfigError::Groups);
}

#[test]
fn missing_placeholder_still_compiles_when_groups_match() {
    // A template that repeats no placeholder and uses all four compiles to
    // exactly four groups; leaving one out fails the group count instead.
    let mut scheme = demo_scheme();
    scheme.whole_line = "{d} {h} {s}".to_string();
    let err = expect_config_error(RegExtractor::new(scheme, "%Y-%m-%d"));
    assert_eq!(err, ConfigError::Groups);
}

#[test]
fn unparsable_timestamp_is_a_parse_error() {
    let ex = RegExtractor::new(demo_scheme(), "%Y-%m-%d %H:%M:%S").unwrap();
    let err = ex.timestamp_micros("not a timestamp").unwrap_err();
    assert_eq!(err, ParseError::Timestamp);
}

#[test]
fn stored_patterns_are_kept() {
    let ex = RegExtractor::new(demo_scheme(), "%Y-%m-%d").unwrap();
    assert_eq!(ex.split_pattern, r"\d{4}-\d{2}-\d{2}");
    assert_eq!(ex.strftime_pattern, "%Y-%m-%d");
}
