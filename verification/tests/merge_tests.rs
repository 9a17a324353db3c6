use livetiming::merge::merge;
use livetiming::value::{Number, Node};

fn text(s: &str) -> Node {
    Node::String(s.to_string())
}

fn num(n: u64) -> Node {
    Node::Number(Number::PosInt(n))
}

fn object(entries: Vec<(&str, Node)>) -> Node {
    Node::Object(entries.into_iter().map(|(k, v)| (k.to_string(), v)).collect())
}

fn driver(number: &str, position: &str) -> Node {
    object(vec![("RacingNumber", text(number)), ("Position", text(position))])
}

#[test]
fn empty_mapping_patch_leaves_mapping_unchanged() {
    let mut base = object(vec![("A", num(1)), ("B", object(vec![("C", text("x"))]))]);
    let before = base.clone();
    merge(&mut base, &object(vec![]));
    assert_eq!(base, before);
}

#[test]
fn empty_mapping_patch_leaves_list_of_mappings_unchanged() {
    let mut base = Node::Array(vec![driver("1", "1"), driver("44", "5")]);
    let before = base.clone();
    merge(&mut base, &object(vec![]));
    assert_eq!(base, before);
}

#[test]
fn empty_mapping_patch_replaces_scalar() {
    let mut base = num(5);
    merge(&mut base, &object(vec![]));
    assert_eq!(base, object(vec![]));
}

#[test]
fn merge_is_not_commutative() {
    let ones = object(vec![("A", num(1))]);
    let twos = object(vec![("A", num(2))]);
    let mut first = object(vec![("A", num(0))]);
    merge(&mut first, &ones);
    merge(&mut first, &twos);
    let mut second = object(vec![("A", num(0))]);
    merge(&mut second, &twos);
    merge(&mut second, &ones);
    assert_eq!(first, object(vec![("A", num(2))]));
    assert_eq!(second, object(vec![("A", num(1))]));
    assert_ne!(first, second);
}

#[test]
fn deleted_patch_marks_elements() {
    let mut base = Node::Array(vec![driver("1", "1"), driver("44", "2"), driver("16", "3")]);
    let patch = object(vec![("_deleted", Node::Array(vec![num(0), num(2)]))]);
    merge(&mut base, &patch);
    let expected = Node::Array(vec![
        object(vec![
            ("RacingNumber", text("1")),
            ("Position", text("1")),
            ("deleted", Node::Bool(true)),
        ]),
        driver("44", "2"),
        object(vec![
            ("RacingNumber", text("16")),
            ("Position", text("3")),
            ("deleted", Node::Bool(true)),
        ]),
    ]);
    assert_eq!(base, expected);
    match &base {
        Node::Array(items) => assert_eq!(items.len(), 3),
        _ => panic!("the base is no longer a list"),
    }
}

#[test]
fn deleted_patch_skips_indices_outside_the_list() {
    let mut base = Node::Array(vec![driver("1", "1")]);
    let before = base.clone();
    let patch = object(vec![(
        "_deleted",
        Node::Array(vec![num(7), Node::Number(Number::NegInt(-1))]),
    )]);
    merge(&mut base, &patch);
    assert_eq!(base, before);
}

#[test]
fn deleted_patch_twice_keeps_one_flag() {
    let mut base = Node::Array(vec![driver("1", "1")]);
    let patch = object(vec![("_deleted", Node::Array(vec![num(0), num(0)]))]);
    merge(&mut base, &patch);
    let expected = Node::Array(vec![object(vec![
        ("RacingNumber", text("1")),
        ("Position", text("1")),
        ("deleted", Node::Bool(true)),
    ])]);
    assert_eq!(base, expected);
}

#[test]
fn racing_number_key_merges_into_that_element() {
    let mut base = Node::Array(vec![
        driver("1", "1"),
        object(vec![
            ("RacingNumber", text("44")),
            ("Position", text("5")),
            ("Tla", text("HAM")),
        ]),
    ]);
    let patch = object(vec![("44", object(vec![("Position", text("1"))]))]);
    merge(&mut base, &patch);
    let expected = Node::Array(vec![
        driver("1", "1"),
        object(vec![
            ("RacingNumber", text("44")),
            ("Position", text("1")),
            ("Tla", text("HAM")),
        ]),
    ]);
    assert_eq!(base, expected);
}

#[test]
fn index_key_merges_into_that_position() {
    let mut base = Node::Array(vec![driver("16", "1"), driver("44", "5")]);
    let patch = object(vec![("1", object(vec![("Position", text("2"))]))]);
    merge(&mut base, &patch);
    assert_eq!(base, Node::Array(vec![driver("16", "1"), driver("44", "2")]));
}

#[test]
fn racing_number_wins_over_index() {
    let mut base = Node::Array(vec![driver("1", "7"), driver("44", "5")]);
    let patch = object(vec![("1", object(vec![("Position", text("2"))]))]);
    merge(&mut base, &patch);
    assert_eq!(base, Node::Array(vec![driver("1", "2"), driver("44", "5")]));
}

#[test]
fn index_key_outside_the_list_is_dropped() {
    let mut base = Node::Array(vec![driver("1", "1")]);
    let before = base.clone();
    let patch = object(vec![
        ("5", object(vec![("Position", text("2"))])),
        ("-1", object(vec![("Position", text("3"))])),
        ("99999999999999999999999999", object(vec![("Position", text("4"))])),
        ("x", object(vec![("Position", text("5"))])),
    ]);
    merge(&mut base, &patch);
    assert_eq!(base, before);
}

#[test]
fn list_patch_is_appended_to_list() {
    let mut base = Node::Array(vec![num(1), num(2)]);
    merge(&mut base, &Node::Array(vec![num(3)]));
    assert_eq!(base, Node::Array(vec![num(1), num(2), num(3)]));
}

#[test]
fn mapping_patch_recurses_and_adds_keys() {
    let mut base = object(vec![("A", object(vec![("B", num(1)), ("C", num(2))]))]);
    let patch = object(vec![("A", object(vec![("C", num(3)), ("D", num(4))])), ("E", Node::Null)]);
    merge(&mut base, &patch);
    let expected = object(vec![
        ("A", object(vec![("B", num(1)), ("C", num(3)), ("D", num(4))])),
        ("E", Node::Null),
    ]);
    assert_eq!(base, expected);
}

#[test]
fn mismatched_shapes_are_replaced() {
    let mut base = object(vec![("A", num(1))]);
    merge(&mut base, &text("gone"));
    assert_eq!(base, text("gone"));
    let mut list = Node::Array(vec![num(1)]);
    merge(&mut list, &object(vec![("0", num(2))]));
    assert_eq!(list, object(vec![("0", num(2))]));
    let mut scalar = num(1);
    merge(&mut scalar, &Node::Null);
    assert_eq!(scalar, Node::Null);
}
