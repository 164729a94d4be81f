use minink::entry::LogEntry;
use minink::entry::TimeBound;
use minink::entry::Timestamp;
use minink::filter::parse_query_list;
use minink::filter::timerange_from_micros;
use minink::filter::tokenize;
use minink::filter::Filter;

fn entry(message: &str, service: &str, micros: i64) -> LogEntry {
    LogEntry {
        message: message.to_string(),
        hostname: "localhost".to_string(),
        service: service.to_string(),
        timestamp: Timestamp { micros },
    }
}

#[test]
fn absent_predicates_accept_everything() {
    let filter = Filter::default();
    assert!(filter.accept(&entry("anything at all", "any.service", 0)));
    assert!(filter.accept(&entry("", "", i64::MIN)));
    assert!(filter.accept(&entry("x", "y", i64::MAX)));
}

#[test]
fn keyword_match_is_case_insensitive_substring() {
    let e = entry("TOTO-200 served", "NGINX.service", 0);
    let by_service = Filter {
        services: Some(vec!["ngin".to_string()]),
        ..Filter::default()
    };
    assert!(by_service.accept(&e));
    let by_message = Filter {
        message_keywords: Some(vec!["oto-2".to_string()]),
        ..Filter::default()
    };
    assert!(by_message.accept(&e));
    let no_hit = Filter {
        services: Some(vec!["postgres".to_string()]),
        ..Filter::default()
    };
    assert!(!no_hit.accept(&e));
}

#[test]
fn predicates_combine_with_and_keywords_with_or() {
    let e = entry("toto", "nginx", 0);
    let both = Filter {
        services: Some(vec!["zzz".to_string(), "ngi".to_string()]),
        message_keywords: Some(vec!["tot".to_string()]),
        ..Filter::default()
    };
    assert!(both.accept(&e));
    let service_misses = Filter {
        services: Some(vec!["zzz".to_string()]),
        message_keywords: Some(vec!["tot".to_string()]),
        ..Filter::default()
    };
    assert!(!service_misses.accept(&e));
}

#[test]
fn empty_keyword_list_places_no_constraint() {
    let filter = Filter {
        services: Some(vec![]),
        message_keywords: Some(vec![]),
        ..Filter::default()
    };
    assert!(filter.accept(&entry("whatever", "any", 0)));
}

#[test]
fn empty_keyword_string_matches_everything() {
    let filter = Filter {
        services: Some(vec![String::new()]),
        ..Filter::default()
    };
    assert!(filter.accept(&entry("m", "svc", 0)));
}

#[test]
fn timerange_bounds_compare_raw_instants() {
    let at = |micros: i64| entry("m", "svc", micros);
    let inclusive = Filter {
        timerange: (
            TimeBound::Included(Timestamp { micros: 10 }),
            TimeBound::Included(Timestamp { micros: 20 }),
        ),
        ..Filter::default()
    };
    assert!(!inclusive.accept(&at(9)));
    assert!(inclusive.accept(&at(10)));
    assert!(inclusive.accept(&at(20)));
    assert!(!inclusive.accept(&at(21)));
    let exclusive = Filter {
        timerange: (
            TimeBound::Excluded(Timestamp { micros: 10 }),
            TimeBound::Excluded(Timestamp { micros: 20 }),
        ),
        ..Filter::default()
    };
    assert!(!exclusive.accept(&at(10)));
    assert!(exclusive.accept(&at(11)));
    assert!(exclusive.accept(&at(19)));
    assert!(!exclusive.accept(&at(20)));
}

#[test]
fn tokenize_splits_and_lowercases() {
    assert_eq!(tokenize("Hello, World!"), vec!["hello", "", "world"]);
    assert_eq!(tokenize("abc"), vec!["abc"]);
    assert_eq!(tokenize("abc,"), vec!["abc"]);
    assert_eq!(tokenize(""), Vec::<String>::new());
    assert_eq!(tokenize("a,,b"), vec!["a", "", "b"]);
}

#[test]
fn parse_query_list_splits_on_commas() {
    assert_eq!(parse_query_list(None), None);
    assert_eq!(
        parse_query_list(Some("nginx,kernel".to_string())),
        Some(vec!["nginx".to_string(), "kernel".to_string()])
    );
    assert_eq!(parse_query_list(Some(String::new())), Some(vec![String::new()]));
}

#[test]
fn timerange_from_micros_uses_exclusive_bounds() {
    let (lo, hi) = timerange_from_micros(Some(3), None);
    assert_eq!(lo, TimeBound::Excluded(Timestamp { micros: 3 }));
    assert_eq!(hi, TimeBound::Unbounded);
    let (lo, hi) = timerange_from_micros(None, Some(9));
    assert_eq!(lo, TimeBound::Unbounded);
    assert_eq!(hi, TimeBound::Excluded(Timestamp { micros: 9 }));
}
