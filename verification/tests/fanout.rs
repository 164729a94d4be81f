use minink::entry::LogEntry;
use minink::entry::Timestamp;
use minink::filter::Filter;
use minink::logdispatcher::LogDispatcher;

fn entry(message: &str, service: &str, micros: i64) -> LogEntry {
    LogEntry {
        message: message.to_string(),
        hostname: "localhost".to_string(),
        service: service.to_string(),
        timestamp: Timestamp { micros },
    }
}

#[test]
fn every_subscriber_receives_every_entry_in_publish_order() {
    let mut dispatcher = LogDispatcher::new();
    let mut s1 = dispatcher.stream();
    let mut s2 = dispatcher.stream();
    let mut s3 = dispatcher.stream();
    let entries = vec![
        entry("first", "a", 1),
        entry("second", "b", 2),
        entry("third", "c", 3),
    ];
    for e in &entries {
        dispatcher.send(e);
    }
    drop(dispatcher);
    for s in [&mut s1, &mut s2, &mut s3] {
        for e in &entries {
            assert_eq!(s.try_pull().unwrap(), Some(e.clone()));
        }
        assert!(s.try_pull().is_err());
    }
}

#[test]
fn a_slow_subscriber_never_blocks_the_others() {
    let mut dispatcher = LogDispatcher::new();
    let mut fast = dispatcher.stream();
    let mut slow = dispatcher.stream();
    dispatcher.send(&entry("one", "a", 1));
    assert_eq!(fast.try_pull().unwrap(), Some(entry("one", "a", 1)));
    dispatcher.send(&entry("two", "a", 2));
    assert_eq!(fast.try_pull().unwrap(), Some(entry("two", "a", 2)));
    // The slow consumer still finds both, in order, afterwards.
    assert_eq!(slow.try_pull().unwrap(), Some(entry("one", "a", 1)));
    assert_eq!(slow.try_pull().unwrap(), Some(entry("two", "a", 2)));
}

#[test]
fn subscription_is_from_now_on() {
    let mut dispatcher = LogDispatcher::new();
    dispatcher.send(&entry("before", "a", 1));
    let mut late = dispatcher.stream();
    dispatcher.send(&entry("after", "a", 2));
    drop(dispatcher);
    assert_eq!(late.try_pull().unwrap(), Some(entry("after", "a", 2)));
    assert!(late.try_pull().is_err());
}

#[test]
fn a_stream_filter_discards_locally_without_reordering() {
    let mut dispatcher = LogDispatcher::new();
    let filter = Filter {
        services: Some(vec!["ngi".to_string()]),
        ..Filter::default()
    };
    let mut filtered = dispatcher.stream().with_filter(filter);
    let mut plain = dispatcher.stream();
    dispatcher.send(&entry("one", "nginx", 1));
    dispatcher.send(&entry("two", "kernel", 2));
    dispatcher.send(&entry("three", "nginx", 3));
    drop(dispatcher);
    assert_eq!(filtered.try_pull().unwrap(), Some(entry("one", "nginx", 1)));
    // The kernel entry is discarded by this subscriber alone.
    assert_eq!(filtered.try_pull().unwrap(), None);
    assert_eq!(filtered.try_pull().unwrap(), Some(entry("three", "nginx", 3)));
    assert!(filtered.try_pull().is_err());
    // The unfiltered subscriber still sees all three.
    assert_eq!(plain.try_pull().unwrap(), Some(entry("one", "nginx", 1)));
    assert_eq!(plain.try_pull().unwrap(), Some(entry("two", "kernel", 2)));
    assert_eq!(plain.try_pull().unwrap(), Some(entry("three", "nginx", 3)));
    assert!(plain.try_pull().is_err());
}

#[test]
fn closed_subscribers_are_dropped_on_publish() {
    let mut dispatcher = LogDispatcher::new();
    let s1 = dispatcher.stream();
    let mut s2 = dispatcher.stream();
    drop(s1);
    dispatcher.send(&entry("one", "a", 1));
    assert_eq!(s2.try_pull().unwrap(), Some(entry("one", "a", 1)));
}
