//! Decoding of single fields of the feed: documents written as JSON text,
//! compressed fields, and mappings that stand for lists.

use crate::value::{entries_model, items_model, lemma_array_view, lemma_object_view, Doc, Node, Number};
use base64::Engine;
use serde_json::Value;
use std::io::Read;
use vstd::prelude::*;

verus! {

/// The document that serde_json reads from the bytes of a JSON text; `None`
/// where it reports an error.
pub uninterp spec fn json_document(bytes: Seq<u8>) -> Option<Doc>;

/// The document that a serde_json value stands for: the same tree, a mapping's
/// entries in the order serde_json walks them, a number as [`Number`] holds it.
pub uninterp spec fn json_model(raw: Value) -> Doc;

/// The bytes that the standard base64 alphabet, with padding, decodes `text`
/// to; `None` where `text` is not such an encoding.
pub uninterp spec fn base64_decoded(text: Seq<char>) -> Option<Seq<u8>>;

/// The bytes that a raw deflate stream expands to; `None` where the stream is
/// not valid.
pub uninterp spec fn inflated(bytes: Seq<u8>) -> Option<Seq<u8>>;

/// Reads a JSON text.
///
/// Calls `serde_json::from_slice` for a `serde_json::Value`; its result is a
/// function of the bytes alone.
#[verifier::external_body]
fn json_from_slice(bytes: &[u8]) -> (raw: Option<Value>)
    ensures
        match raw {
            Some(tree) => json_document(bytes@) == Some(json_model(tree)),
            None => json_document(bytes@) is None,
        },
{
    match serde_json::from_slice::<Value>(bytes) {
        Ok(tree) => Some(tree),
        Err(_) => None,
    }
}

/// Copies a serde_json value into a [`Node`], node for node.
///
/// Tells the variants of `serde_json::Value` apart and moves their contents;
/// a number goes by `as_u64`, `as_i64` and the bits of `as_f64`.
#[verifier::external_body]
fn from_json(raw: &Value) -> (node: Node)
    ensures
        node@ == json_model(*raw),
{
    match raw {
        Value::Null => Node::Null,
        Value::Bool(b) => Node::Bool(*b),
        Value::Number(n) => Node::Number(
            n.as_u64().map(Number::PosInt).or(n.as_i64().map(Number::NegInt)).unwrap_or(
                Number::Float(n.as_f64().map_or(0, |x| x.to_bits())),
            ),
        ),
        Value::String(s) => Node::String(s.clone()),
        Value::Array(a) => Node::Array(a.iter().map(from_json).collect()),
        Value::Object(o) => Node::Object(o.iter().map(|(k, v)| (k.clone(), from_json(v))).collect()),
    }
}

/// Decodes base64 text.
///
/// Calls `decode` of `base64::engine::general_purpose::STANDARD`; its result
/// is a function of the text alone.
#[verifier::external_body]
fn base64_decode(text: &str) -> (bytes: Option<Vec<u8>>)
    ensures
        match bytes {
            Some(decoded) => base64_decoded(text@) == Some(decoded@),
            None => base64_decoded(text@) is None,
        },
{
    match base64::engine::general_purpose::STANDARD.decode(text) {
        Ok(decoded) => Some(decoded),
        Err(_) => None,
    }
}

/// Expands a raw deflate stream.
///
/// Reads a `flate2::read::DeflateDecoder` over the bytes to its end; the
/// result is a function of the bytes alone.
#[verifier::external_body]
fn inflate(bytes: &Vec<u8>) -> (expanded: Option<Vec<u8>>)
    ensures
        match expanded {
            Some(plain) => inflated(bytes@) == Some(plain@),
            None => inflated(bytes@) is None,
        },
{
    let mut plain = Vec::new();
    match flate2::read::DeflateDecoder::new(&bytes[..]).read_to_end(&mut plain) {
        Ok(_) => Some(plain),
        Err(_) => None,
    }
}

/// Reads a JSON document from its bytes; `None` where they are not one.
pub fn parse_json(bytes: &[u8]) -> (document: Option<Node>)
    ensures
        match document {
            Some(value) => json_document(bytes@) == Some(value@),
            None => json_document(bytes@) is None,
        },
{
    match json_from_slice(bytes) {
        Some(raw) => Some(from_json(&raw)),
        None => None,
    }
}

/// Why a compressed field could not be read.
#[derive(Debug, Clone, Copy, PartialEq, Eq, Structural)]
pub enum InflateError {
    /// The text is not base64.
    Encoding,
    /// The bytes are not a deflate stream.
    Compression,
    /// The expanded bytes are not a JSON document.
    Document,
}

/// The document that a compressed field holds: its text is base64 of a deflate
/// stream of a JSON text. The first step that fails names the error.
pub open spec fn inflated_document(text: Seq<char>) -> Result<Doc, InflateError> {
    match base64_decoded(text) {
        None => Err(InflateError::Encoding),
        Some(packed) => match inflated(packed) {
            None => Err(InflateError::Compression),
            Some(plain) => match json_document(plain) {
                None => Err(InflateError::Document),
                Some(document) => Ok(document),
            },
        },
    }
}

/// Reads the document of a compressed field.
pub fn inflate_zlib(s: &str) -> (outcome: Result<Node, InflateError>)
    ensures
        match outcome {
            Ok(value) => inflated_document(s@) == Ok::<Doc, InflateError>(value@),
            Err(error) => inflated_document(s@) == Err::<Doc, InflateError>(error),
        },
{
    let packed = match base64_decode(s) {
        Some(packed) => packed,
        None => {
            return Err(InflateError::Encoding);
        },
    };
    let plain = match inflate(&packed) {
        Some(plain) => plain,
        None => {
            return Err(InflateError::Compression);
        },
    };
    match parse_json(plain.as_slice()) {
        Some(value) => Ok(value),
        None => Err(InflateError::Document),
    }
}

/// The entries among the first `n` whose key is not `key`, in order.
pub open spec fn without_key(entries: Seq<(Seq<char>, Doc)>, key: Seq<char>, n: nat) -> Seq<
    (Seq<char>, Doc),
>
    decreases n,
{
    if n == 0 || n > entries.len() {
        Seq::empty()
    } else if entries[n - 1].0 == key {
        without_key(entries, key, (n - 1) as nat)
    } else {
        without_key(entries, key, (n - 1) as nat).push(entries[n - 1])
    }
}

/// The values of a run of entries, in order.
pub open spec fn values_of(entries: Seq<(Seq<char>, Doc)>) -> Seq<Doc> {
    Seq::new(entries.len(), |i: int| entries[i].1)
}

/// The list that a list, or a mapping standing for one, denotes: a list's
/// elements, or a mapping's values. Nothing else denotes a list.
pub open spec fn list_of(doc: Doc) -> Option<Seq<Doc>> {
    match doc {
        Doc::List(items) => Some(items),
        Doc::Mapping(entries) => Some(values_of(entries)),
        _ => None,
    }
}

/// Copies the entries whose key is not `key`.
pub fn remove_key(entries: &Vec<(String, Node)>, key: &str) -> (kept: Vec<(String, Node)>)
    ensures
        entries_model(kept@) == without_key(entries_model(entries@), key@, entries@.len()),
{
    let name = key.to_owned();
    let mut kept: Vec<(String, Node)> = Vec::new();
    let mut n: usize = 0;
    while n < entries.len()
        invariant
            n <= entries.len(),
            name@ == key@,
            entries_model(kept@) == without_key(entries_model(entries@), key@, n as nat),
        decreases entries.len() - n,
    {
        let ghost before = entries_model(kept@);
        if entries[n].0 != name {
            let k = entries[n].0.clone();
            let v = entries[n].1.clone();
            kept.push((k, v));
            assert(entries_model(kept@) =~= before.push(entries_model(entries@)[n as int]));
        }
        n += 1;
    }
    kept
}

/// The entries of a mapping without the bookkeeping key `_kf`.
pub fn kf_remover(raw_map: &Vec<(String, Node)>) -> (map: Vec<(String, Node)>)
    ensures
        entries_model(map@) == without_key(entries_model(raw_map@), "_kf"@, raw_map@.len()),
{
    remove_key(raw_map, "_kf")
}

/// The values of a mapping as a list, in the mapping's order.
pub fn flatten_map_to_vec(map: &Vec<(String, Node)>) -> (vec: Vec<Node>)
    ensures
        items_model(vec@) == values_of(entries_model(map@)),
{
    let mut vec: Vec<Node> = Vec::new();
    let mut n: usize = 0;
    while n < map.len()
        invariant
            n <= map.len(),
            vec@.len() == n,
            forall|i: int| 0 <= i < n ==> vec@[i]@ == map@[i].1@,
        decreases map.len() - n,
    {
        let value = map[n].1.clone();
        vec.push(value);
        n += 1;
    }
    assert(items_model(vec@) =~= values_of(entries_model(map@)));
    vec
}

/// The values of a mapping as a list, where there is a mapping.
pub fn flatten_map_to_vec_optional(optional_map: Option<&Vec<(String, Node)>>) -> (vec: Option<
    Vec<Node>,
>)
    ensures
        optional_map is None ==> vec is None,
        optional_map is Some ==> vec is Some && items_model(vec->0@) == values_of(
            entries_model(optional_map->0@),
        ),
{
    match optional_map {
        Some(map) => Some(flatten_map_to_vec(map)),
        None => None,
    }
}

/// The list that `value` denotes: the elements of a list, or the values of a
/// mapping; `None` for anything else.
pub fn map_or_vec_to_vec(value: &Node) -> (vec: Option<Vec<Node>>)
    ensures
        match vec {
            Some(items) => list_of(value@) == Some(items_model(items@)),
            None => list_of(value@) is None,
        },
{
    match value {
        Node::Array(items) => {
            proof {
                lemma_array_view(*value);
            }
            let mut vec: Vec<Node> = Vec::new();
            let mut n: usize = 0;
            while n < items.len()
                invariant
                    n <= items.len(),
                    vec@.len() == n,
                    forall|i: int| 0 <= i < n ==> vec@[i]@ == items@[i]@,
                decreases items.len() - n,
            {
                let item = items[n].clone();
                vec.push(item);
                n += 1;
            }
            assert(items_model(vec@) =~= items_model(items@));
            Some(vec)
        },
        Node::Object(entries) => {
            proof {
                lemma_object_view(*value);
            }
            Some(flatten_map_to_vec(entries))
        },
        _ => None,
    }
}

/// The list that `value` denotes, where there is a value: an absent field and
/// `null` denote no list.
pub fn map_or_vec_to_vec_optional(value: Option<&Node>) -> (vec: Option<Vec<Node>>)
    ensures
        match vec {
            Some(items) => value is Some && list_of(value->0@) == Some(items_model(items@)),
            None => value is None || list_of(value->0@) is None,
        },
{
    match value {
        Some(inner) => map_or_vec_to_vec(inner),
        None => None,
    }
}

} // verus!
