use nu_plugin_ldap::bridge::{ProducerAction, PullOutcome, QueryError, SearchEvent, StreamBridge};
use nu_plugin_ldap::ldap::search_end_event;
use nu_plugin_ldap::shape::RawEntry;

fn entry(dn: &str) -> RawEntry {
    RawEntry {
        dn: dn.to_string(),
        attrs: vec![("sn".to_string(), vec!["S".to_string()]), ("cn".to_string(), vec![dn.to_string()])],
        bin_attrs: vec![],
    }
}

fn pulled_dn(o: PullOutcome) -> String {
    match o {
        PullOutcome::Item(r) => r.dn,
        other => panic!("expected a record, got {:?}", other),
    }
}

#[test]
fn consumer_sees_arrival_order() {
    let mut b = StreamBridge::new(100);
    for dn in ["A", "B", "C"] {
        assert_eq!(b.producer_action(), ProducerAction::Read);
        assert_eq!(b.accept(SearchEvent::Entry(entry(dn))), ProducerAction::Read);
    }
    assert_eq!(b.accept(SearchEvent::Done), ProducerAction::Stop);
    assert_eq!(pulled_dn(b.pull()), "A");
    assert_eq!(pulled_dn(b.pull()), "B");
    assert_eq!(pulled_dn(b.pull()), "C");
    assert_eq!(b.pull(), PullOutcome::Ended);
    assert_eq!(b.pull(), PullOutcome::Ended);
}

#[test]
fn records_are_shaped_on_the_way() {
    let mut b = StreamBridge::new(1);
    b.accept(SearchEvent::Entry(entry("A")));
    match b.pull() {
        PullOutcome::Item(r) => {
            assert_eq!(r.attrs[0].0, "cn");
            assert_eq!(r.attrs[1].0, "sn");
        }
        other => panic!("unexpected {:?}", other),
    }
}

#[test]
fn backpressure_loses_nothing_and_stays_bounded() {
    let n: usize = 4;
    let total = n + 5;
    let mut b = StreamBridge::new(n);
    let mut produced = 0usize;
    let mut seen: Vec<String> = Vec::new();
    let mut buffered = 0usize;
    let mut waits = 0usize;
    loop {
        // The producer runs as far as it is let.
        loop {
            match b.producer_action() {
                ProducerAction::Read => {
                    let ev = if produced < total {
                        produced += 1;
                        SearchEvent::Entry(entry(&format!("e{}", produced)))
                    } else {
                        SearchEvent::Done
                    };
                    if ev != SearchEvent::Done {
                        buffered += 1;
                    }
                    b.accept(ev);
                    assert!(buffered <= n);
                }
                ProducerAction::Wait => {
                    waits += 1;
                    break;
                }
                ProducerAction::Stop => break,
            }
        }
        // One pull per tick.
        match b.pull() {
            PullOutcome::Item(r) => {
                buffered -= 1;
                seen.push(r.dn);
            }
            PullOutcome::Ended => break,
            other => panic!("unexpected {:?}", other),
        }
    }
    let expected: Vec<String> = (1..=total).map(|i| format!("e{}", i)).collect();
    assert_eq!(seen, expected);
    assert!(waits > 0);
}

#[test]
fn full_buffer_makes_the_producer_wait() {
    let mut b = StreamBridge::new(2);
    assert_eq!(b.accept(SearchEvent::Entry(entry("A"))), ProducerAction::Read);
    assert_eq!(b.accept(SearchEvent::Entry(entry("B"))), ProducerAction::Wait);
    assert!(!b.has_room());
    assert_eq!(pulled_dn(b.pull()), "A");
    assert!(b.has_room());
    assert_eq!(b.producer_action(), ProducerAction::Read);
}

#[test]
fn failure_mid_stream_is_the_last_element() {
    let mut b = StreamBridge::new(10);
    b.accept(SearchEvent::Entry(entry("X")));
    b.accept(SearchEvent::Entry(entry("Y")));
    let failed = QueryError::Protocol("connection severed".to_string());
    assert_eq!(b.accept(SearchEvent::Failed(failed)), ProducerAction::Stop);
    assert_eq!(b.producer_action(), ProducerAction::Stop);
    assert_eq!(pulled_dn(b.pull()), "X");
    assert_eq!(pulled_dn(b.pull()), "Y");
    assert_eq!(
        b.pull(),
        PullOutcome::Failed(QueryError::Protocol("connection severed".to_string()))
    );
    assert_eq!(b.pull(), PullOutcome::Ended);
    assert_eq!(b.pull(), PullOutcome::Ended);
}

#[test]
fn events_after_close_are_ignored() {
    let mut b = StreamBridge::new(10);
    b.accept(SearchEvent::Failed(QueryError::Protocol("e".to_string())));
    assert_eq!(b.accept(SearchEvent::Entry(entry("late"))), ProducerAction::Stop);
    assert_eq!(b.pull(), PullOutcome::Failed(QueryError::Protocol("e".to_string())));
    assert_eq!(b.pull(), PullOutcome::Ended);
}

#[test]
fn no_entries_end_cleanly() {
    let mut b = StreamBridge::new(100);
    assert_eq!(b.pull(), PullOutcome::Pending);
    assert_eq!(b.accept(search_end_event(0, String::new())), ProducerAction::Stop);
    assert_eq!(b.pull(), PullOutcome::Ended);
}

#[test]
fn limit_exceeded_at_the_end_is_a_failure() {
    let mut b = StreamBridge::new(100);
    b.accept(SearchEvent::Entry(entry("A")));
    b.accept(search_end_event(4, "Size limit exceeded".to_string()));
    assert_eq!(pulled_dn(b.pull()), "A");
    assert_eq!(
        b.pull(),
        PullOutcome::Failed(QueryError::Protocol("Size limit exceeded".to_string()))
    );
    assert_eq!(b.pull(), PullOutcome::Ended);
}

#[test]
fn abandon_after_one_pull_stops_the_producer() {
    let mut b = StreamBridge::new(100);
    b.accept(SearchEvent::Entry(entry("A")));
    b.accept(SearchEvent::Entry(entry("B")));
    assert_eq!(pulled_dn(b.pull()), "A");
    b.abandon();
    assert_eq!(b.producer_action(), ProducerAction::Stop);
    assert_eq!(b.accept(SearchEvent::Entry(entry("C"))), ProducerAction::Stop);
    assert_eq!(b.pull(), PullOutcome::Ended);
}

#[test]
fn cancellation_ends_the_sequence() {
    let mut b = StreamBridge::new(100);
    b.accept(SearchEvent::Entry(entry("A")));
    assert_eq!(b.accept(SearchEvent::Cancelled), ProducerAction::Stop);
    assert_eq!(pulled_dn(b.pull()), "A");
    assert_eq!(b.pull(), PullOutcome::Ended);
}
