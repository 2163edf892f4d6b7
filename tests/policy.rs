use vanishing::config::{Config, Error, ParsedEntry, RawEntry, DEFAULT_RETENTION_SECS};
use vanishing::duration::RetentionDuration;
use vanishing::loader::{from_document, from_toml, load};

fn entry(lower: u64, upper: u64, duration: &str) -> RawEntry {
    (lower, upper, duration.to_string())
}

fn hours(h: u64) -> RetentionDuration {
    RetentionDuration::from_secs(h * 3600)
}

#[test]
fn default_policy_is_one_full_range_of_a_day() {
    let c = Config::default();
    assert_eq!(c.len(), 1);
    assert!(!c.is_empty());
    assert_eq!(c.get(0, u64::MAX), Some(RetentionDuration { secs: 86400, nanos: 0 }));
    assert_eq!(DEFAULT_RETENTION_SECS, 24 * 60 * 60);
}

#[test]
fn default_policy_covers_sizes_at_the_edges() {
    let c = Config::default();
    for size in [0u64, 1, 4096, u64::MAX - 1, u64::MAX] {
        let matching: Vec<_> = c.limits.iter().filter(|(k, _)| k.0 <= size && size <= k.1).collect();
        assert_eq!(matching.len(), 1);
        assert_eq!(*matching[0].1, hours(24));
    }
}

#[test]
fn absent_configuration_gives_default() {
    let c = load(None).unwrap();
    assert_eq!(c.limits, Config::default().limits);
}

#[test]
fn present_configuration_is_parsed() {
    let c = load(Some("limits = [[0, 100, \"2h\"]]")).unwrap();
    assert_eq!(c.len(), 1);
    assert_eq!(c.get(0, 100), Some(hours(2)));
}

#[test]
fn inverted_range_is_rejected() {
    let r = Config::build(&[entry(100, 50, "1h")]);
    assert!(matches!(r, Err(Error::InvertedRange { lower: 100, upper: 50 })));
}

#[test]
fn duplicate_range_with_other_duration_is_rejected() {
    let r = Config::build(&[entry(0, 10, "1h"), entry(0, 10, "2h")]);
    assert!(matches!(r, Err(Error::DuplicateRange { lower: 0, upper: 10 })));
}

#[test]
fn duplicate_range_with_same_duration_is_rejected() {
    let r = Config::build(&[entry(0, 10, "1h"), entry(0, 10, "1h")]);
    assert!(matches!(r, Err(Error::DuplicateRange { lower: 0, upper: 10 })));
}

#[test]
fn overlapping_ranges_are_accepted() {
    let c = Config::build(&[entry(0, 100, "1h"), entry(50, 150, "2h")]).unwrap();
    assert_eq!(c.len(), 2);
    assert_eq!(c.get(0, 100), Some(hours(1)));
    assert_eq!(c.get(50, 150), Some(hours(2)));
}

#[test]
fn unparsable_duration_is_rejected() {
    let r = Config::build(&[entry(0, 10, "notaduration")]);
    match r {
        Err(Error::InvalidDuration(text)) => assert_eq!(text, "notaduration"),
        other => panic!("unexpected {:?}", other),
    }
}

#[test]
fn duration_is_checked_before_bounds() {
    let r = Config::build(&[entry(100, 50, "notaduration")]);
    assert!(matches!(r, Err(Error::InvalidDuration(_))));
}

#[test]
fn bounds_are_checked_before_duplicates() {
    let r = Config::build(&[entry(50, 10, "1h"), entry(50, 10, "1h")]);
    assert!(matches!(r, Err(Error::InvertedRange { lower: 50, upper: 10 })));
}

#[test]
fn first_error_in_input_order_is_reported() {
    let r = Config::build(&[entry(0, 10, "1h"), entry(9, 3, "1h"), entry(0, 1, "bad")]);
    assert!(matches!(r, Err(Error::InvertedRange { lower: 9, upper: 3 })));
}

#[test]
fn equal_bounds_form_a_valid_range() {
    let c = Config::build(&[entry(7, 7, "5m")]).unwrap();
    assert_eq!(c.get(7, 7), Some(RetentionDuration::from_secs(300)));
}

#[test]
fn empty_entries_build_an_empty_policy() {
    let c = Config::build(&[]).unwrap();
    assert!(c.is_empty());
    assert_eq!(c.len(), 0);
}

#[test]
fn outcome_does_not_depend_on_entry_order() {
    let good = [entry(0, 10, "1h"), entry(11, 20, "2h"), entry(21, 30, "3h")];
    let mut permuted = good.clone();
    permuted.reverse();
    assert!(Config::build(&good).is_ok());
    assert!(Config::build(&permuted).is_ok());

    let bad = [entry(0, 10, "1h"), entry(5, 1, "2h"), entry(0, 10, "zzz")];
    let bad_permuted = [entry(0, 10, "zzz"), entry(0, 10, "1h"), entry(5, 1, "2h")];
    assert!(matches!(Config::build(&bad), Err(Error::InvertedRange { .. })));
    assert!(matches!(Config::build(&bad_permuted), Err(Error::InvalidDuration(_))));
}

#[test]
fn valid_entries_round_trip() {
    let entries = [entry(0, 1023, "30m"), entry(1024, 1_048_575, "1day"), entry(1_048_576, u64::MAX, "2h 30m")];
    let c = Config::build(&entries).unwrap();
    assert_eq!(c.len(), 3);
    assert_eq!(c.get(0, 1023), Some(RetentionDuration::from_secs(1800)));
    assert_eq!(c.get(1024, 1_048_575), Some(hours(24)));
    assert_eq!(c.get(1_048_576, u64::MAX), Some(RetentionDuration::from_secs(9000)));
    assert_eq!(c.get(0, 1024), None);
}

#[test]
fn keys_iterate_in_order() {
    let c = Config::build(&[entry(5, 9, "1h"), entry(0, 9, "1h"), entry(0, 3, "1h")]).unwrap();
    let keys: Vec<(u64, u64)> = c.limits.keys().copied().collect();
    assert_eq!(keys, vec![(0, 3), (0, 9), (5, 9)]);
}

#[test]
fn durations_parse_to_exact_values() {
    assert_eq!(RetentionDuration::parse("24h"), Some(RetentionDuration { secs: 86400, nanos: 0 }));
    assert_eq!(RetentionDuration::parse("30m"), Some(RetentionDuration { secs: 1800, nanos: 0 }));
    assert_eq!(RetentionDuration::parse("1s 500ms"), Some(RetentionDuration { secs: 1, nanos: 500_000_000 }));
    assert_eq!(RetentionDuration::parse("0"), Some(RetentionDuration { secs: 0, nanos: 0 }));
    assert_eq!(RetentionDuration::parse(""), None);
    assert_eq!(RetentionDuration::parse("notaduration"), None);
}

#[test]
fn parsed_entries_are_validated_in_order() {
    let entries: Vec<ParsedEntry> = vec![(0, 10, Ok(hours(1))), (3, 1, Err("x".to_string()))];
    assert!(matches!(Config::from_parsed(&entries), Err(Error::InvalidDuration(_))));
    let entries: Vec<ParsedEntry> = vec![(0, 10, Ok(hours(1))), (0, 10, Ok(hours(1)))];
    assert!(matches!(Config::from_parsed(&entries), Err(Error::DuplicateRange { lower: 0, upper: 10 })));
    let entries: Vec<ParsedEntry> = vec![(0, 10, Ok(hours(1))), (11, 12, Ok(hours(3)))];
    let c = Config::from_parsed(&entries).unwrap();
    assert_eq!(c.get(11, 12), Some(hours(3)));
}

#[test]
fn toml_with_sizes_in_words_is_parsed() {
    let text = "limits = [\n  [\"0 B\", \"10 MB\", \"1h\"],\n  [\"10 MB\", \"1 GiB\", \"2days\"],\n]\n";
    let c = from_toml(text).unwrap();
    assert_eq!(c.len(), 2);
    assert_eq!(c.get(0, 10_000_000), Some(hours(1)));
    assert_eq!(c.get(10_000_000, 1 << 30), Some(hours(48)));
}

#[test]
fn toml_with_integer_sizes_is_parsed() {
    let c = from_toml("limits = [[0, 1024, \"12h\"], [1025, \"18446744073709551615\", \"1m\"]]").unwrap();
    assert_eq!(c.get(0, 1024), Some(hours(12)));
    assert_eq!(c.get(1025, u64::MAX), Some(RetentionDuration::from_secs(60)));
}

#[test]
fn toml_errors_from_validation_come_through() {
    assert!(matches!(from_toml("limits = [[100, 50, \"1h\"]]"), Err(Error::InvertedRange { lower: 100, upper: 50 })));
    assert!(matches!(
        from_toml("limits = [[0, 10, \"1h\"], [0, 10, \"1h\"]]"),
        Err(Error::DuplicateRange { lower: 0, upper: 10 })
    ));
    assert!(matches!(from_toml("limits = [[0, 10, \"soon\"]]"), Err(Error::InvalidDuration(_))));
}

#[test]
fn malformed_toml_is_a_parse_failure() {
    assert!(matches!(from_toml("limits = [[0, 10"), Err(Error::ParseFailure(_))));
    assert!(matches!(from_toml("limits = 5"), Err(Error::ParseFailure(_))));
    assert!(matches!(from_toml("limits = [[\"lots\", 10, \"1h\"]]"), Err(Error::ParseFailure(_))));
}

#[test]
fn toml_without_limits_is_a_parse_failure() {
    match from_toml("") {
        Err(Error::ParseFailure(msg)) => assert!(msg.contains("limits")),
        other => panic!("unexpected {:?}", other),
    }
}

#[test]
fn empty_limits_list_gives_empty_policy() {
    let c = from_toml("limits = []").unwrap();
    assert!(c.is_empty());
}

#[test]
fn document_uses_only_the_limits_list() {
    let doc = vec![
        ("extra".to_string(), vec![entry(9, 1, "1h")]),
        ("limits".to_string(), vec![entry(1, 9, "1h")]),
    ];
    let c = from_document(&doc).unwrap();
    assert_eq!(c.len(), 1);
    assert_eq!(c.get(1, 9), Some(hours(1)));
    let doc = vec![("other".to_string(), vec![entry(1, 9, "1h")])];
    assert!(matches!(from_document(&doc), Err(Error::ParseFailure(_))));
}

#[test]
fn duration_whose_total_overflows_is_invalid() {
    let text = "18446744073709551615s 1000000000ns";
    assert_eq!(RetentionDuration::parse(text), None);
    match Config::build(&[entry(0, 10, text)]) {
        Err(Error::InvalidDuration(t)) => assert_eq!(t, text),
        other => panic!("unexpected {:?}", other),
    }
}

#[test]
fn duration_number_limits_are_inclusive() {
    assert_eq!(RetentionDuration::parse("9999999999s"), Some(RetentionDuration::from_secs(9_999_999_999)));
    assert_eq!(RetentionDuration::parse("99999999999s"), None);
    assert_eq!(RetentionDuration::parse("99 999 999 999s"), None);
    assert_eq!(RetentionDuration::parse("1h 2m 3s 4ms 5us 6ns"), Some(RetentionDuration { secs: 3723, nanos: 4_005_006 }));
    assert_eq!(
        RetentionDuration::parse("1h 30m 15s 250ms 100us 50ns"),
        Some(RetentionDuration { secs: 5415, nanos: 250_100_050 })
    );
    let fifty = "1s ".repeat(50);
    assert_eq!(RetentionDuration::parse(&fifty), Some(RetentionDuration::from_secs(50)));
    let fifty_one = "1s ".repeat(51);
    assert_eq!(RetentionDuration::parse(&fifty_one), None);
}

#[test]
fn deeply_nested_toml_is_a_parse_failure() {
    let brackets = format!("limits = {}", "[".repeat(100_000));
    assert!(matches!(from_toml(&brackets), Err(Error::ParseFailure(m)) if !m.is_empty()));
    let braces = format!("limits = [{}", "{a = ".repeat(100_000));
    assert!(matches!(from_toml(&braces), Err(Error::ParseFailure(m)) if !m.is_empty()));
    let dotted = format!("{} = 1", vec!["a"; 100_000].join("."));
    assert!(matches!(from_toml(&dotted), Err(Error::ParseFailure(m)) if !m.is_empty()));
}

#[test]
fn brackets_in_strings_and_comments_do_not_count() {
    let deep = "[".repeat(40);
    let text = format!("# {deep}\nlimits = [[\"0\", \"10 KB\", \"1h\"], # {deep}\n]\n");
    let c = from_toml(&text).unwrap();
    assert_eq!(c.get(0, 10_000), Some(hours(1)));
    let text = format!("'{deep}' = []\nlimits = [[0, 10, \"1h\"]]");
    assert_eq!(from_toml(&text).unwrap().len(), 1);
}

#[test]
fn parse_failures_carry_a_message() {
    for text in ["limits = [[0, 10", "", "limits = 5", "name = \"x\"\nlimits = []"] {
        match from_toml(text) {
            Err(Error::ParseFailure(msg)) => assert!(!msg.is_empty()),
            other => panic!("unexpected {:?} for {:?}", other, text),
        }
    }
}

#[test]
fn reordered_entries_build_the_same_policy() {
    let a = [entry(0, 10, "1h"), entry(5, 50, "2h"), entry(51, 99, "90m")];
    let b = [entry(51, 99, "90m"), entry(0, 10, "1h"), entry(5, 50, "2h")];
    assert_eq!(Config::build(&a).unwrap().limits, Config::build(&b).unwrap().limits);
}
