//! Decoding of the feed: instants, and the messages that carry a snapshot or a
//! batch of updates.

use crate::history::{updates_model, Update, UpdateModel};
use crate::merge::{field, get_field};
use crate::parser::deserializer::{json_document, parse_json, remove_key, without_key};
use crate::value::{items_model, lemma_array_view, lemma_object_view, Doc, Node};
use vstd::prelude::*;
use vstd::utf8::encode_utf8;

pub mod deserializer;
pub mod models;
pub mod outside;

verus! {

/// The instant, in milliseconds since the Unix epoch, that chrono reads from
/// `text` under the strftime-like `format`, the time taken as UTC; `None` where
/// chrono does not accept the text.
pub uninterp spec fn naive_millis(text: Seq<char>, format: Seq<char>) -> Option<i64>;

/// Reads an instant from `text` under `format`.
///
/// Calls `chrono::NaiveDateTime::parse_from_str`, which is a function of the
/// two strings alone, and takes the result as UTC in milliseconds
/// (`and_utc`, `timestamp_millis`).
#[verifier::external_body]
pub(crate) fn parse_naive_millis(text: &str, format: &str) -> (instant: Option<i64>)
    ensures
        instant == naive_millis(text@, format@),
{
    match chrono::NaiveDateTime::parse_from_str(text, format) {
        Ok(parsed) => Some(parsed.and_utc().timestamp_millis()),
        Err(_) => None,
    }
}

/// The format of an instant with milliseconds, as the feed stamps its updates.
pub open spec fn format_with_fraction() -> Seq<char> {
    "%Y-%m-%dT%H:%M:%S%.3fZ"@
}

/// The format of an instant without a fraction of a second.
pub open spec fn format_plain() -> Seq<char> {
    "%Y-%m-%dT%H:%M:%S"@
}

/// The instant that `text` denotes: read with milliseconds where that format
/// fits, else without a fraction.
pub open spec fn instant_of(text: Seq<char>) -> Option<i64> {
    match naive_millis(text, format_with_fraction()) {
        Some(instant) => Some(instant),
        None => naive_millis(text, format_plain()),
    }
}

/// Reads an instant in either of the two formats of the feed.
pub fn chrono_date(s: &str) -> (instant: Option<i64>)
    ensures
        instant == instant_of(s@),
{
    match parse_naive_millis(s, "%Y-%m-%dT%H:%M:%S%.3fZ") {
        Some(instant) => Some(instant),
        None => parse_naive_millis(s, "%Y-%m-%dT%H:%M:%S"),
    }
}

/// What one message of the feed carries.
#[derive(Debug, PartialEq, Eq)]
pub enum ParsedMessage {
    /// A batch of updates, in the order of the message.
    Updates(Vec<Update>),
    /// A full snapshot of the document.
    Replay(Node),
    /// Nothing that changes the document.
    Empty,
}

/// The mathematical model of a [`ParsedMessage`].
pub enum MessageModel {
    Updates(Seq<UpdateModel>),
    Replay(Doc),
    Empty,
}

impl View for ParsedMessage {
    type V = MessageModel;

    open spec fn view(&self) -> MessageModel {
        match self {
            ParsedMessage::Updates(updates) => MessageModel::Updates(updates_model(updates@)),
            ParsedMessage::Replay(snapshot) => MessageModel::Replay(snapshot@),
            ParsedMessage::Empty => MessageModel::Empty,
        }
    }
}

/// The update that one entry of a message carries: under `A`, a list of the
/// category, the patch and the text of an instant. Any other entry carries
/// none.
pub open spec fn entry_update(entry: Doc) -> Option<UpdateModel> {
    match field(entry, "A"@) {
        Some(Doc::List(parts)) => if parts.len() == 3 && parts[0] is Text && parts[2] is Text
            && instant_of(parts[2]->Text_0) is Some {
            Some(
                UpdateModel {
                    category: parts[0]->Text_0,
                    timestamp: instant_of(parts[2]->Text_0)->0,
                    patch: parts[1],
                },
            )
        } else {
            None
        },
        _ => None,
    }
}

/// The updates that the first `n` entries of a message carry, in order, but
/// for those of the category `TimingDataF1`, which repeats `TimingData`.
pub open spec fn decoded_updates(entries: Seq<Doc>, n: nat) -> Seq<UpdateModel>
    decreases n,
{
    if n == 0 || n > entries.len() {
        Seq::empty()
    } else {
        let earlier = decoded_updates(entries, (n - 1) as nat);
        match entry_update(entries[n - 1]) {
            Some(update) => if update.category == "TimingDataF1"@ {
                earlier
            } else {
                earlier.push(update)
            },
            None => earlier,
        }
    }
}

/// What a message carries.
///
/// A list under `M` is a batch of updates, and nothing if the list is empty;
/// else a mapping under `R` is a snapshot, without its part `TimingDataF1`;
/// any other message carries nothing.
pub open spec fn classified(message: Doc) -> MessageModel {
    match field(message, "M"@) {
        Some(Doc::List(entries)) => if entries.len() == 0 {
            MessageModel::Empty
        } else {
            MessageModel::Updates(decoded_updates(entries, entries.len()))
        },
        _ => match field(message, "R"@) {
            Some(Doc::Mapping(parts)) => MessageModel::Replay(
                Doc::Mapping(without_key(parts, "TimingDataF1"@, parts.len())),
            ),
            _ => MessageModel::Empty,
        },
    }
}

/// Reads the update of one entry of a message.
fn decode_entry(entry: &Node) -> (update: Option<Update>)
    ensures
        match update {
            Some(decoded) => entry_update(entry@) == Some(decoded@),
            None => entry_update(entry@) is None,
        },
{
    match get_field(entry, "A") {
        Some(Node::Array(parts)) => {
            proof {
                lemma_array_view(Node::Array(*parts));
            }
            if parts.len() != 3 {
                return None;
            }
            match (&parts[0], &parts[2]) {
                (Node::String(category), Node::String(stamp)) => {
                    match chrono_date(stamp.as_str()) {
                        Some(timestamp) => Some(
                            Update {
                                category: category.clone(),
                                timestamp,
                                patch: parts[1].clone(),
                            },
                        ),
                        None => None,
                    }
                },
                _ => None,
            }
        },
        _ => None,
    }
}

/// Says what a message, read as a document, carries.
pub fn classify(message: &Node) -> (parsed: ParsedMessage)
    ensures
        parsed@ == classified(message@),
{
    match get_field(message, "M") {
        Some(Node::Array(entries)) => {
            proof {
                lemma_array_view(Node::Array(*entries));
            }
            if entries.len() < 1 {
                return ParsedMessage::Empty;
            }
            let excluded = "TimingDataF1".to_owned();
            let mut updates: Vec<Update> = Vec::new();
            let mut n: usize = 0;
            while n < entries.len()
                invariant
                    n <= entries.len(),
                    excluded@ == "TimingDataF1"@,
                    updates_model(updates@) == decoded_updates(items_model(entries@), n as nat),
                decreases entries.len() - n,
            {
                let ghost before = updates_model(updates@);
                match decode_entry(&entries[n]) {
                    Some(update) => {
                        if update.category != excluded {
                            let ghost model = update@;
                            updates.push(update);
                            assert(updates_model(updates@) =~= before.push(model));
                        }
                    },
                    None => {},
                }
                n += 1;
            }
            return ParsedMessage::Updates(updates);
        },
        _ => {},
    }
    match get_field(message, "R") {
        Some(Node::Object(parts)) => {
            proof {
                lemma_object_view(Node::Object(*parts));
            }
            let kept = Node::Object(remove_key(parts, "TimingDataF1"));
            proof {
                lemma_object_view(kept);
            }
            ParsedMessage::Replay(kept)
        },
        _ => ParsedMessage::Empty,
    }
}

/// The document that the text of a message is, if it is a JSON text.
pub open spec fn message_document(message: Seq<char>) -> Option<Doc> {
    json_document(encode_utf8(message))
}

/// Reads a message that is a JSON text and says what it carries.
pub fn parse_message(message: String) -> (parsed: ParsedMessage)
    requires
        message_document(message@) is Some,
    ensures
        parsed@ == classified(message_document(message@)->0),
{
    match parse_json(message.as_str().as_bytes()) {
        Some(document) => classify(&document),
        None => ParsedMessage::Empty,
    }
}

/// Reads a message and says what it carries; `None` where the message is not a
/// JSON text.
pub fn try_parse_message(message: String) -> (parsed: Option<ParsedMessage>)
    ensures
        match parsed {
            Some(carried) => message_document(message@) is Some && carried@ == classified(
                message_document(message@)->0,
            ),
            None => message_document(message@) is None,
        },
{
    let readable = parse_json(message.as_str().as_bytes()).is_some();
    if readable {
        Some(parse_message(message))
    } else {
        None
    }
}

/// The position of the first dot at or after `from`, or the length of the path
/// if there is none.
pub open spec fn first_dot(path: Seq<char>, from: int) -> int
    decreases path.len() - from,
{
    if from < 0 || from >= path.len() {
        path.len() as int
    } else if path[from] == '.' {
        from
    } else {
        first_dot(path, from + 1)
    }
}

/// The value reached from `doc` by the keys of `path` from position `start`
/// on, the keys being parted by dots: each key must lead on from a mapping.
pub open spec fn value_from(doc: Doc, path: Seq<char>, start: int) -> Option<Doc>
    decreases path.len() - start,
{
    let stop = first_dot(path, start);
    if 0 <= start <= stop <= path.len() {
        match field(doc, path.subrange(start, stop)) {
            Some(inner) => if stop < path.len() {
                value_from(inner, path, stop + 1)
            } else {
                Some(inner)
            },
            None => None,
        }
    } else {
        None
    }
}

/// A copy of the value reached from `value` by the dotted `path`, if every key
/// of the path leads on.
pub fn get_value_path(value: &Node, path: &str) -> (found: Option<Node>)
    ensures
        match found {
            Some(inner) => value_from(value@, path@, 0) == Some(inner@),
            None => value_from(value@, path@, 0) is None,
        },
{
    let n = path.unicode_len();
    let mut current: &Node = value;
    let mut start: usize = 0;
    loop
        invariant
            n == path@.len(),
            start <= n,
            value_from(value@, path@, 0) == value_from(current@, path@, start as int),
        decreases n - start,
    {
        let mut stop: usize = start;
        while stop < n && path.get_char(stop) != '.'
            invariant
                n == path@.len(),
                start <= stop <= n,
                first_dot(path@, start as int) == first_dot(path@, stop as int),
            decreases n - stop,
        {
            stop += 1;
        }
        let key = path.substring_char(start, stop);
        match get_field(current, key) {
            Some(inner) => {
                if stop < n {
                    current = inner;
                    start = stop + 1;
                } else {
                    return Some(inner.clone());
                }
            },
            None => {
                return None;
            },
        }
    }
}

} // verus!
