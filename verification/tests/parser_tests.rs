use livetiming::history::Update;
use livetiming::parser::deserializer::{
    flatten_map_to_vec, flatten_map_to_vec_optional, inflate_zlib, kf_remover, map_or_vec_to_vec,
    map_or_vec_to_vec_optional, parse_json, remove_key, InflateError,
};
use livetiming::parser::models::markers::WeatherDataMarker;
use livetiming::parser::models::{Update as WireUpdate, WeatherData};
use livetiming::parser::{
    chrono_date, classify, get_value_path, parse_message, try_parse_message, ParsedMessage,
};
use livetiming::value::{Number, Node};

fn text(s: &str) -> Node {
    Node::String(s.to_string())
}

fn num(n: u64) -> Node {
    Node::Number(Number::PosInt(n))
}

fn entries(pairs: Vec<(&str, Node)>) -> Vec<(String, Node)> {
    pairs.into_iter().map(|(k, v)| (k.to_string(), v)).collect()
}

fn object(pairs: Vec<(&str, Node)>) -> Node {
    Node::Object(entries(pairs))
}

#[test]
fn date_with_fraction_is_read() {
    assert_eq!(chrono_date("2023-05-07T19:00:00.123Z"), Some(1_683_486_000_123));
    assert_eq!(chrono_date("1970-01-01T00:00:10.000Z"), Some(10_000));
}

#[test]
fn date_without_fraction_is_read() {
    assert_eq!(chrono_date("2023-05-07T19:00:00"), Some(1_683_486_000_000));
}

#[test]
fn date_in_another_form_is_refused() {
    assert_eq!(chrono_date("07/05/2023 19:00"), None);
    assert_eq!(chrono_date(""), None);
}

#[test]
fn wire_update_gives_its_instant() {
    let weather = WeatherData {
        air_temp: "25.1".to_string(),
        humidity: "40".to_string(),
        pressure: "1012".to_string(),
        rainfall: "0".to_string(),
        track_temp: "41.0".to_string(),
        wind_direction: "180".to_string(),
        wind_speed: "1.2".to_string(),
    };
    let update = WireUpdate::WeatherData(
        WeatherDataMarker::WeatherData,
        weather.clone(),
        "2023-05-07T19:00:00.123Z".to_string(),
    );
    assert_eq!(update.get_timestamp(), Some(1_683_486_000_123));
    let plain = WireUpdate::WeatherData(
        WeatherDataMarker::WeatherData,
        weather,
        "2023-05-07T19:00:00".to_string(),
    );
    assert_eq!(plain.get_timestamp(), None);
}

#[test]
fn json_text_is_read_into_a_tree() {
    let parsed = parse_json(br#"{"b": [1, -2, 1.5, null, true], "a": "x"}"#);
    let expected = object(vec![
        ("a", text("x")),
        (
            "b",
            Node::Array(vec![
                num(1),
                Node::Number(Number::NegInt(-2)),
                Node::Number(Number::Float(1.5f64.to_bits())),
                Node::Null,
                Node::Bool(true),
            ]),
        ),
    ]);
    assert_eq!(parsed, Some(expected));
    assert_eq!(parse_json(b"{"), None);
}

#[test]
fn message_with_updates_is_a_batch() {
    let message = r#"{"M":[
        {"A":["TimingData",{"Lines":{"44":{"Position":"1"}}},"2023-05-07T19:00:00.123Z"]},
        {"A":["TimingDataF1",{},"2023-05-07T19:00:00.123Z"]},
        {"A":["WeatherData",{"AirTemp":"25.1"},"2023-05-07T19:00:01"]},
        {"A":["Broken",{}]},
        {"A":["Undated",{},"yesterday"]}
    ]}"#;
    let expected = ParsedMessage::Updates(vec![
        Update {
            category: "TimingData".to_string(),
            timestamp: 1_683_486_000_123,
            patch: object(vec![(
                "Lines",
                object(vec![("44", object(vec![("Position", text("1"))]))]),
            )]),
        },
        Update {
            category: "WeatherData".to_string(),
            timestamp: 1_683_486_001_000,
            patch: object(vec![("AirTemp", text("25.1"))]),
        },
    ]);
    assert_eq!(parse_message(message.to_string()), expected);
    assert_eq!(try_parse_message(message.to_string()), Some(expected));
}

#[test]
fn message_with_empty_list_is_empty() {
    assert_eq!(parse_message(r#"{"M":[]}"#.to_string()), ParsedMessage::Empty);
    assert_eq!(parse_message(r#"{"C":"d-1"}"#.to_string()), ParsedMessage::Empty);
    assert_eq!(parse_message(r#"[1, 2]"#.to_string()), ParsedMessage::Empty);
}

#[test]
fn message_with_only_the_duplicate_category_is_an_empty_batch() {
    let message = r#"{"M":[{"A":["TimingDataF1",{},"2023-05-07T19:00:00.123Z"]}]}"#;
    assert_eq!(parse_message(message.to_string()), ParsedMessage::Updates(vec![]));
}

#[test]
fn message_with_snapshot_is_a_replay() {
    let message = r#"{"R":{"TimingData":{"Lines":{}},"TimingDataF1":{"Lines":{}},"LapCount":{"CurrentLap":3}},"I":"1"}"#;
    let expected = ParsedMessage::Replay(object(vec![
        ("LapCount", object(vec![("CurrentLap", num(3))])),
        ("TimingData", object(vec![("Lines", object(vec![]))])),
    ]));
    assert_eq!(parse_message(message.to_string()), expected);
}

#[test]
fn message_that_is_no_json_is_refused() {
    assert_eq!(try_parse_message("not a message".to_string()), None);
}

#[test]
fn classify_prefers_updates_over_snapshot() {
    let message = object(vec![
        ("R", object(vec![("A", num(1))])),
        ("M", Node::Array(vec![object(vec![(
            "A",
            Node::Array(vec![text("LapCount"), num(7), text("1970-01-01T00:00:10.000Z")]),
        )])])),
    ]);
    let expected = ParsedMessage::Updates(vec![Update {
        category: "LapCount".to_string(),
        timestamp: 10_000,
        patch: num(7),
    }]);
    assert_eq!(classify(&message), expected);
}

#[test]
fn value_path_walks_mappings() {
    let doc = object(vec![(
        "Lines",
        object(vec![("44", object(vec![("LastLapTime", object(vec![("Value", text("1:31.2"))]))]))]),
    )]);
    assert_eq!(get_value_path(&doc, "Lines.44.LastLapTime.Value"), Some(text("1:31.2")));
    assert_eq!(
        get_value_path(&doc, "Lines.44.LastLapTime"),
        Some(object(vec![("Value", text("1:31.2"))]))
    );
    assert_eq!(get_value_path(&doc, "Lines.1.LastLapTime"), None);
    assert_eq!(get_value_path(&doc, "Lines.44.LastLapTime.Value.More"), None);
    assert_eq!(get_value_path(&doc, ""), None);
    assert_eq!(get_value_path(&doc, "Lines."), None);
}

#[test]
fn value_path_with_empty_key() {
    let doc = object(vec![("a", object(vec![("", num(1))]))]);
    assert_eq!(get_value_path(&doc, "a."), Some(num(1)));
}

#[test]
fn compressed_field_is_expanded() {
    let packed = "q1ZyzSspykwtVrKKrlYKLUlWslIyMjAy1jUw1TUwDzG0tDIwACI9QyPjKCUdJefEIqDKaiVDEOGckZiXl5oDFjBQsjI0NDAw0FEyUrIysrSoBYLYWgA=";
    let expected = object(vec![(
        "Entries",
        Node::Array(vec![object(vec![
            (
                "Cars",
                object(vec![(
                    "1",
                    object(vec![("Channels", object(vec![("0", num(11000)), ("2", num(298))]))]),
                )]),
            ),
            ("Utc", text("2023-05-07T19:00:00.123Z")),
        ])]),
    )]);
    assert_eq!(inflate_zlib(packed), Ok(expected));
}

#[test]
fn compressed_field_errors() {
    assert_eq!(inflate_zlib("not base64!"), Err(InflateError::Encoding));
    assert_eq!(inflate_zlib("aGVsbG8gd29ybGQ="), Err(InflateError::Compression));
    assert_eq!(inflate_zlib("y8svUcgqzs8DAA=="), Err(InflateError::Document));
}

#[test]
fn kf_key_is_removed() {
    let raw = entries(vec![("1", num(1)), ("_kf", Node::Bool(true)), ("44", num(2))]);
    assert_eq!(kf_remover(&raw), entries(vec![("1", num(1)), ("44", num(2))]));
    assert_eq!(remove_key(&raw, "44"), entries(vec![("1", num(1)), ("_kf", Node::Bool(true))]));
    assert_eq!(kf_remover(&entries(vec![])), entries(vec![]));
}

#[test]
fn mapping_is_flattened_in_order() {
    let map = entries(vec![("0", text("a")), ("1", text("b"))]);
    assert_eq!(flatten_map_to_vec(&map), vec![text("a"), text("b")]);
    assert_eq!(flatten_map_to_vec_optional(Some(&map)), Some(vec![text("a"), text("b")]));
    assert_eq!(flatten_map_to_vec_optional(None), None);
}

#[test]
fn list_or_mapping_becomes_a_list() {
    let list = Node::Array(vec![num(1), num(2)]);
    let map = object(vec![("0", num(1)), ("1", num(2))]);
    assert_eq!(map_or_vec_to_vec(&list), Some(vec![num(1), num(2)]));
    assert_eq!(map_or_vec_to_vec(&map), Some(vec![num(1), num(2)]));
    assert_eq!(map_or_vec_to_vec(&text("x")), None);
    assert_eq!(map_or_vec_to_vec_optional(Some(&map)), Some(vec![num(1), num(2)]));
    assert_eq!(map_or_vec_to_vec_optional(Some(&Node::Null)), None);
    assert_eq!(map_or_vec_to_vec_optional(None), None);
}
