use livetiming::history::{History, ProtocolError, Update};
use livetiming::parser::ParsedMessage;
use livetiming::value::{Number, Node};

fn doc(a: u64) -> Node {
    Node::Object(vec![("A".to_string(), Node::Number(Number::PosInt(a)))])
}

fn update(seconds: i64, a: u64) -> Update {
    Update { category: "Test".to_string(), timestamp: seconds * 1000, patch: doc(a) }
}

fn scenario() -> History {
    let mut history = History::new();
    assert_eq!(history.set_intitial(doc(1)), Ok(()));
    let mut batch = vec![update(10, 2), update(20, 3), update(30, 4)];
    history.add_updates(&mut batch);
    assert!(batch.is_empty());
    history
}

#[test]
fn delayed_view_advances_with_the_clock() {
    let mut history = scenario();
    assert_eq!(history.get_delayed_at(25_000, &10), Some(doc(2)));
    let entry = history.delay_states.get(&10).unwrap();
    assert_eq!(entry.applied, 1);
    assert_eq!(entry.current_timestamp, Some(10_000));
    assert_eq!(entry.next_timestamp, Some(20_000));
    assert_eq!(history.get_delayed_at(35_000, &10), Some(doc(3)));
    let entry = history.delay_states.get(&10).unwrap();
    assert_eq!(entry.applied, 2);
    assert_eq!(entry.current_timestamp, Some(20_000));
    assert_eq!(entry.next_timestamp, Some(30_000));
}

#[test]
fn delayed_view_before_any_update_is_the_snapshot() {
    let mut history = scenario();
    assert_eq!(history.get_delayed_at(25_000, &100), Some(doc(1)));
    let entry = history.delay_states.get(&100).unwrap();
    assert_eq!(entry.applied, 0);
    assert_eq!(entry.current_timestamp, None);
    assert_eq!(entry.next_timestamp, Some(10_000));
}

#[test]
fn delayed_view_past_the_log_has_no_next_instant() {
    let mut history = scenario();
    assert_eq!(history.get_delayed_at(100_000, &5), Some(doc(4)));
    let entry = history.delay_states.get(&5).unwrap();
    assert_eq!(entry.applied, 3);
    assert_eq!(entry.next_timestamp, None);
    let mut more = vec![update(40, 5)];
    history.add_updates(&mut more);
    assert_eq!(history.get_delayed_at(100_000, &5), Some(doc(5)));
}

#[test]
fn delayed_view_without_snapshot_is_unavailable() {
    let mut history = History::new();
    let mut batch = vec![update(10, 2)];
    history.add_updates(&mut batch);
    assert_eq!(history.get_delayed_at(25_000, &10), None);
    assert_eq!(history.get_realtime(), None);
    assert!(history.delay_states.is_empty());
}

#[test]
fn zero_delay_equals_realtime() {
    let mut history = scenario();
    let realtime = history.get_realtime();
    assert_eq!(realtime, Some(doc(4)));
    assert_eq!(history.get_delayed_at(30_000, &0), realtime);
    assert_eq!(history.get_delayed(&0), realtime);
}

#[test]
fn shorter_delay_is_ahead() {
    let mut history = scenario();
    history.get_delayed_at(32_000, &5);
    history.get_delayed_at(32_000, &15);
    let short = history.delay_states.get(&5).unwrap().applied;
    let long = history.delay_states.get(&15).unwrap().applied;
    assert_eq!(short, 2);
    assert_eq!(long, 1);
    assert!(short >= long);
}

#[test]
fn delayed_query_is_idempotent() {
    let mut history = scenario();
    let first = history.get_delayed_at(25_000, &10);
    let second = history.get_delayed_at(25_000, &10);
    assert_eq!(first, second);
    assert_eq!(history.delay_states.get(&10).unwrap().applied, 1);
}

#[test]
fn second_snapshot_is_refused() {
    let mut history = scenario();
    assert_eq!(history.set_intitial(doc(9)), Err(ProtocolError::AlreadyInitialised));
    assert_eq!(history.initial, Some(doc(1)));
    assert_eq!(history.get_realtime(), Some(doc(4)));
}

#[test]
fn snapshot_after_updates_precedes_them() {
    let mut history = History::new();
    let mut batch = vec![update(10, 2), update(20, 3)];
    history.add_updates(&mut batch);
    assert_eq!(history.get_realtime(), None);
    assert_eq!(history.set_intitial(doc(1)), Ok(()));
    assert_eq!(history.get_realtime(), Some(doc(3)));
    assert_eq!(history.realtime.as_ref().unwrap().timestamp, Some(20_000));
}

#[test]
fn empty_batch_changes_nothing() {
    let mut history = scenario();
    let mut batch: Vec<Update> = Vec::new();
    history.add_updates(&mut batch);
    assert_eq!(history.updates.len(), 3);
    assert_eq!(history.get_realtime(), Some(doc(4)));
}

#[test]
fn realtime_records_the_last_instant() {
    let history = scenario();
    assert_eq!(history.realtime.as_ref().unwrap().timestamp, Some(30_000));
}

#[test]
fn all_delayed_views_are_advanced_together() {
    let mut history = scenario();
    history.get_delayed_at(12_000, &0);
    history.get_delayed_at(12_000, &10);
    let views = history.get_all_delayed_at(32_000);
    assert_eq!(views.len(), 2);
    assert_eq!(views.get(&0), Some(&doc(4)));
    assert_eq!(views.get(&10), Some(&doc(3)));
    let now = history.get_all_delayed();
    assert_eq!(now.len(), 2);
    assert_eq!(now.get(&0), Some(&doc(4)));
    assert_eq!(now.get(&10), Some(&doc(4)));
}

#[test]
fn negative_delay_looks_ahead() {
    let mut history = scenario();
    assert_eq!(history.get_delayed_at(5_000, &-10), Some(doc(2)));
}

#[test]
fn updates_are_filtered_by_category() {
    let mut history = History::new();
    let mut batch = vec![
        Update { category: "WeatherData".to_string(), timestamp: 1, patch: doc(1) },
        Update { category: "LapCount".to_string(), timestamp: 2, patch: doc(2) },
        Update { category: "WeatherData".to_string(), timestamp: 3, patch: doc(3) },
    ];
    history.add_updates(&mut batch);
    assert_eq!(history.filter_updates("WeatherData"), vec![&doc(1), &doc(3)]);
    assert!(history.filter_updates("TimingData").is_empty());
}

#[test]
fn ingest_applies_what_a_message_carries() {
    let mut history = History::new();
    assert_eq!(history.ingest(ParsedMessage::Empty), None);
    assert_eq!(history.ingest(ParsedMessage::Updates(vec![update(10, 2)])), None);
    assert_eq!(history.ingest(ParsedMessage::Replay(doc(1))), Some(doc(2)));
    assert_eq!(history.ingest(ParsedMessage::Replay(doc(9))), Some(doc(2)));
    assert_eq!(history.ingest(ParsedMessage::Updates(vec![update(20, 3)])), Some(doc(3)));
    assert_eq!(history.ingest(ParsedMessage::Empty), Some(doc(3)));
    assert_eq!(history.updates.len(), 2);
    assert_eq!(history.initial, Some(doc(1)));
}

#[test]
fn weather_history_gathers_columns() {
    let reading = |air: &str, wind: Option<&str>| {
        let mut entries = vec![("AirTemp".to_string(), Node::String(air.to_string()))];
        if let Some(speed) = wind {
            entries.push(("WindSpeed".to_string(), Node::String(speed.to_string())));
        }
        Node::Object(entries)
    };
    let mut history = History::new();
    let mut batch = vec![
        Update { category: "WeatherData".to_string(), timestamp: 1, patch: reading("25.1", None) },
        Update { category: "LapCount".to_string(), timestamp: 2, patch: doc(2) },
        Update {
            category: "WeatherData".to_string(),
            timestamp: 3,
            patch: reading("25.3", Some("1.2")),
        },
        Update { category: "WeatherData".to_string(), timestamp: 4, patch: Node::Null },
    ];
    history.add_updates(&mut batch);
    let expected = Node::Object(vec![
        (
            "AirTemp".to_string(),
            Node::Array(vec![Node::String("25.1".to_string()), Node::String("25.3".to_string())]),
        ),
        ("WindSpeed".to_string(), Node::Array(vec![Node::String("1.2".to_string())])),
    ]);
    assert_eq!(history.weather_history(), expected);
    assert_eq!(History::new().weather_history(), Node::Object(vec![]));
}

#[test]
fn delayed_view_stops_at_the_first_later_update() {
    let mut history = History::new();
    assert_eq!(history.set_intitial(doc(1)), Ok(()));
    let mut batch = vec![update(10, 2), update(30, 3), update(20, 4)];
    history.add_updates(&mut batch);
    assert_eq!(history.get_delayed_at(25_000, &0), Some(doc(2)));
    assert_eq!(history.delay_states.get(&0).unwrap().applied, 1);
    assert_eq!(history.get_delayed_at(30_000, &0), Some(doc(4)));
    assert_eq!(history.delay_states.get(&0).unwrap().applied, 3);
}

#[test]
fn update_exactly_at_the_horizon_is_shown() {
    let mut history = scenario();
    assert_eq!(history.get_delayed_at(30_000, &10), Some(doc(3)));
    assert_eq!(history.get_delayed_at(29_999, &20), Some(doc(1)));
}
