use minink::entry::TimeBound;
use minink::entry::Timestamp;
use minink::filter::Filter;
use minink::fts::convert_to_fts_match;
use minink::fts::to_sqlite_phrase;
use minink::sqlgen::build_extract_query;
use minink::sqlgen::SqlArg;

fn kws(words: &[&str]) -> Vec<String> {
    words.iter().map(|w| w.to_string()).collect()
}

#[test]
fn test_convert_to_fts_match() {
    assert_eq!(convert_to_fts_match(&kws(&[])), "");
    assert_eq!(convert_to_fts_match(&kws(&["bla"])), "\"bla\"*");
    assert_eq!(convert_to_fts_match(&kws(&["bla bla"])), "\"bla bla\"*");
    assert_eq!(
        convert_to_fts_match(&kws(&["bla ", " blo"])),
        "\"bla\"* OR \"blo\"*"
    );
    assert_eq!(convert_to_fts_match(&kws(&["AB©d"])), "\"ab d\"*");
    assert_eq!(
        convert_to_fts_match(&kws(&["A OR B", "AND C"])),
        "\"a or b\"* OR \"and c\"*"
    );
    assert_eq!(convert_to_fts_match(&kws(&["\""])), "");
}

#[test]
fn sqlite_phrase_wraps_or_drops() {
    assert_eq!(to_sqlite_phrase(&kws(&["bla", "blo"])), Some("(\"bla\"* OR \"blo\"*)".to_string()));
    assert_eq!(to_sqlite_phrase(&kws(&[])), None);
    assert_eq!(to_sqlite_phrase(&kws(&["\""])), None);
}

#[test]
fn extract_query_without_constraints() {
    let (sql, binds) = build_extract_query(&Filter::default());
    assert_eq!(
        sql,
        "select message, hostname, service, timestamp from logs join logsfts fts on \
         fts.rowid == logs.logsfts_id where 1 order by timestamp desc limit 100;"
    );
    assert!(binds.is_empty());
}

#[test]
fn extract_query_with_keywords_and_range() {
    let filter = Filter {
        services: Some(kws(&["ngi"])),
        message_keywords: Some(kws(&["toto"])),
        timerange: (
            TimeBound::Included(Timestamp { micros: 2_000_000 }),
            TimeBound::Excluded(Timestamp { micros: 5_000_000 }),
        ),
    };
    let (sql, binds) = build_extract_query(&filter);
    assert_eq!(
        sql,
        "select message, hostname, service, timestamp from logs join logsfts fts on \
         fts.rowid == logs.logsfts_id where 1 and logsfts = ? and unixepoch(timestamp) >= ? \
         and unixepoch(timestamp) < ? order by timestamp desc limit 100;"
    );
    assert_eq!(binds.len(), 3);
    match &binds[0] {
        SqlArg::Text(t) => assert_eq!(t, "(message: (\"toto\"*)) AND (service: (\"ngi\"*))"),
        SqlArg::Int(_) => panic!("expected the match expression first"),
    }
    match &binds[1] {
        SqlArg::Int(v) => assert_eq!(*v, 2),
        SqlArg::Text(_) => panic!("expected the lower bound in seconds"),
    }
    match &binds[2] {
        SqlArg::Int(v) => assert_eq!(*v, 5),
        SqlArg::Text(_) => panic!("expected the upper bound in seconds"),
    }
}

#[test]
fn bound_seconds_round_towards_negative_infinity() {
    assert_eq!(Timestamp { micros: 1_999_999 }.seconds(), 1);
    assert_eq!(Timestamp { micros: -1 }.seconds(), -1);
    assert_eq!(Timestamp { micros: -1_000_000 }.seconds(), -1);
    assert_eq!(Timestamp { micros: -1_000_001 }.seconds(), -2);
}
