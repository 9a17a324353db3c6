//! The merge engine: how one patch changes one document.
//!
//! The rules are stated once, on the mathematical model, by [`merged`]; the
//! executable [`merge`] is proved to compute exactly that.

use crate::value::{entries_model, items_model, lemma_array_view, lemma_object_view, Doc, Node, Number};
use vstd::prelude::*;

verus! {

/// The index of the first entry at or after `from` whose key is `key`, or the
/// number of entries if there is none.
pub open spec fn key_search<V>(entries: Seq<(Seq<char>, V)>, key: Seq<char>, from: int) -> int
    decreases entries.len() - from,
{
    if from < 0 || from >= entries.len() {
        entries.len() as int
    } else if entries[from].0 == key {
        from
    } else {
        key_search(entries, key, from + 1)
    }
}

/// The value that a mapping holds under `key`, if it is a mapping and has one.
pub open spec fn field(doc: Doc, key: Seq<char>) -> Option<Doc> {
    match doc {
        Doc::Mapping(entries) => {
            let i = key_search(entries, key, 0);
            if i < entries.len() {
                Some(entries[i].1)
            } else {
                None
            }
        },
        _ => None,
    }
}

/// Whether `doc` is a mapping whose `RacingNumber` is the text `number`.
pub open spec fn has_racing_number(doc: Doc, number: Seq<char>) -> bool {
    field(doc, "RacingNumber"@) == Some(Doc::Text(number))
}

/// The index of the first element at or after `from` that carries the racing
/// number `number`, or the length of the list if there is none.
pub open spec fn racing_search(items: Seq<Doc>, number: Seq<char>, from: int) -> int
    decreases items.len() - from,
{
    if from < 0 || from >= items.len() {
        items.len() as int
    } else if has_racing_number(items[from], number) {
        from
    } else {
        racing_search(items, number, from + 1)
    }
}

/// Whether `c` is one of the ten decimal digits.
pub open spec fn is_digit(c: char) -> bool {
    '0' <= c <= '9'
}

/// Whether every character of `s` is a decimal digit.
pub open spec fn all_digits(s: Seq<char>) -> bool {
    forall|i: int| 0 <= i < s.len() ==> is_digit(#[trigger] s[i])
}

/// The number that a string of decimal digits denotes.
pub open spec fn digits_value(s: Seq<char>) -> nat
    decreases s.len(),
{
    if s.len() == 0 {
        0
    } else {
        (digits_value(s.drop_last()) * 10 + (s.last() as nat - '0' as nat)) as nat
    }
}

/// A key read as a position: a non-empty string of decimal digits denotes its
/// value, any other key denotes no position.
pub open spec fn key_index(key: Seq<char>) -> Option<nat> {
    if key.len() > 0 && all_digits(key) {
        Some(digits_value(key))
    } else {
        None
    }
}

/// Whether every element of a list is a mapping.
pub open spec fn all_mappings(items: Seq<Doc>) -> bool {
    forall|i: int| 0 <= i < items.len() ==> #[trigger] items[i] is Mapping
}

/// The integer that a number denotes; a float denotes none.
pub open spec fn integer_of(n: Number) -> Option<int> {
    match n {
        Number::PosInt(u) => Some(u as int),
        Number::NegInt(i) => Some(i as int),
        Number::Float(_) => None,
    }
}

/// Whether `doc` is an integer number.
pub open spec fn is_integer(doc: Doc) -> bool {
    doc is Number && integer_of(doc->Number_0) is Some
}

/// Whether `doc` is a list of integers.
pub open spec fn is_index_list(doc: Doc) -> bool {
    doc is List && forall|i: int|
        0 <= i < doc->List_0.len() ==> is_integer(#[trigger] doc->List_0[i])
}

/// A run of entries in which `key` holds `value`: the first entry with that key
/// is overwritten, or a new entry is added at the end.
pub open spec fn with_entry(entries: Seq<(Seq<char>, Doc)>, key: Seq<char>, value: Doc) -> Seq<
    (Seq<char>, Doc),
> {
    let i = key_search(entries, key, 0);
    if i < entries.len() {
        entries.update(i, (entries[i].0, value))
    } else {
        entries.push((key, value))
    }
}

/// An element flagged as deleted: a mapping gets `deleted: true`; anything else
/// cannot carry the flag and stays as it is.
pub open spec fn marked(doc: Doc) -> Doc {
    match doc {
        Doc::Mapping(entries) => Doc::Mapping(with_entry(entries, "deleted"@, Doc::Bool(true))),
        _ => doc,
    }
}

/// The list after the elements referenced by the first `n` of `indices` have
/// been flagged. An index outside the list flags nothing.
pub open spec fn marked_items(items: Seq<Doc>, indices: Seq<Doc>, n: nat) -> Seq<Doc>
    decreases n,
{
    if n == 0 || n > indices.len() {
        items
    } else {
        let prev = marked_items(items, indices, (n - 1) as nat);
        match indices[n - 1] {
            Doc::Number(number) => match integer_of(number) {
                Some(j) => if 0 <= j < prev.len() {
                    prev.update(j, marked(prev[j]))
                } else {
                    prev
                },
                None => prev,
            },
            _ => prev,
        }
    }
}

/// The document that results from applying `patch` to `base`.
///
/// * mapping onto mapping: key by key, see [`merged_entries`];
/// * list onto list: the patch's elements are appended;
/// * mapping onto a list of mappings: a keyed merge, see [`merged_keyed`];
/// * anything else: the patch replaces the base.
pub open spec fn merged(base: Doc, patch: Doc) -> Doc
    decreases patch, 0nat,
{
    match patch {
        Doc::Mapping(p) => match base {
            Doc::Mapping(b) => Doc::Mapping(merged_entries(b, p, p.len())),
            Doc::List(b) => if all_mappings(b) {
                Doc::List(merged_keyed(b, p, p.len()))
            } else {
                patch
            },
            _ => patch,
        },
        Doc::List(p) => match base {
            Doc::List(b) => Doc::List(b + p),
            _ => patch,
        },
        _ => patch,
    }
}

/// The entries of a mapping after the first `n` entries of a mapping patch have
/// been applied in order: a key that the base holds has the patch's value merged
/// into the base's; a new key is added at the end with the patch's value.
pub open spec fn merged_entries(
    base: Seq<(Seq<char>, Doc)>,
    patch: Seq<(Seq<char>, Doc)>,
    n: nat,
) -> Seq<(Seq<char>, Doc)>
    decreases patch, n,
{
    if n == 0 || n > patch.len() {
        base
    } else {
        let prev = merged_entries(base, patch, (n - 1) as nat);
        let i = key_search(prev, patch[n - 1].0, 0);
        if i < prev.len() {
            prev.update(i, (prev[i].0, merged(prev[i].1, patch[n - 1].1)))
        } else {
            prev.push((patch[n - 1].0, patch[n - 1].1))
        }
    }
}

/// The elements of a list after the first `n` entries of a mapping patch have
/// been applied in order. For each entry, the first rule that fits is taken:
///
/// 1. the key `_deleted` with a list of integers flags the referenced elements;
/// 2. a key that is the racing number of an element is merged into the first
///    such element;
/// 3. a key that reads as a position inside the list is merged into the
///    element at that position;
/// 4. any other entry changes nothing.
pub open spec fn merged_keyed(base: Seq<Doc>, patch: Seq<(Seq<char>, Doc)>, n: nat) -> Seq<Doc>
    decreases patch, n,
{
    if n == 0 || n > patch.len() {
        base
    } else {
        let prev = merged_keyed(base, patch, (n - 1) as nat);
        if patch[n - 1].0 == "_deleted"@ && is_index_list(patch[n - 1].1) {
            marked_items(prev, patch[n - 1].1->List_0, patch[n - 1].1->List_0.len())
        } else {
            let i = racing_search(prev, patch[n - 1].0, 0);
            if i < prev.len() {
                prev.update(i, merged(prev[i], patch[n - 1].1))
            } else {
                match key_index(patch[n - 1].0) {
                    Some(j) => if j < prev.len() {
                        prev.update(j as int, merged(prev[j as int], patch[n - 1].1))
                    } else {
                        prev
                    },
                    None => prev,
                }
            }
        }
    }
}

/// Whether `key` spells `word`.
fn is_key(key: &String, word: &str) -> (same: bool)
    ensures
        same == (key@ == word@),
{
    let owned = word.to_owned();
    *key == owned
}

/// Finds the first entry with the given key.
fn find_key(entries: &Vec<(String, Node)>, key: &String) -> (i: usize)
    ensures
        i == key_search(entries_model(entries@), key@, 0),
{
    let ghost model = entries_model(entries@);
    let mut i: usize = 0;
    while i < entries.len()
        invariant
            i <= entries.len(),
            model == entries_model(entries@),
            key_search(model, key@, 0) == key_search(model, key@, i as int),
        decreases entries.len() - i,
    {
        if entries[i].0 == *key {
            return i;
        }
        i += 1;
    }
    i
}

/// Makes `key` hold `value`, overwriting the first entry with that key or
/// adding one at the end.
fn set_entry(entries: &mut Vec<(String, Node)>, key: String, value: Node)
    ensures
        entries_model(final(entries)@) == with_entry(entries_model(old(entries)@), key@, value@),
{
    let i = find_key(entries, &key);
    if i < entries.len() {
        entries[i].1 = value;
    } else {
        entries.push((key, value));
    }
    assert(entries_model(entries@) =~= with_entry(entries_model(old(entries)@), key@, value@));
}

/// Flags one element as deleted.
fn mark(element: &mut Node)
    ensures
        final(element)@ == marked(old(element)@),
{
    proof {
        if *element is Object {
            lemma_object_view(*element);
        }
    }
    match element {
        Node::Object(entries) => {
            set_entry(entries, "deleted".to_owned(), Node::Bool(true));
        },
        _ => {},
    }
    proof {
        if *element is Object {
            lemma_object_view(*element);
        }
    }
}

/// The value that a mapping holds under `key`, if `value` is a mapping and has
/// one.
pub fn get_field<'a>(value: &'a Node, key: &str) -> (found: Option<&'a Node>)
    ensures
        match found {
            Some(inner) => field(value@, key@) == Some(inner@),
            None => field(value@, key@) is None,
        },
{
    match value {
        Node::Object(entries) => {
            proof {
                lemma_object_view(*value);
            }
            let name = key.to_owned();
            let i = find_key(entries, &name);
            if i < entries.len() {
                Some(&entries[i].1)
            } else {
                None
            }
        },
        _ => None,
    }
}

/// Whether `item` is a mapping whose `RacingNumber` is the text `number`.
fn carries_racing_number(item: &Node, number: &String) -> (found: bool)
    ensures
        found == has_racing_number(item@, number@),
{
    match get_field(item, "RacingNumber") {
        Some(Node::String(text)) => *text == *number,
        _ => false,
    }
}

/// Finds the first element that carries the racing number `number`.
fn find_racing_number(items: &Vec<Node>, number: &String) -> (i: usize)
    ensures
        i == racing_search(items_model(items@), number@, 0),
{
    let ghost model = items_model(items@);
    let mut i: usize = 0;
    while i < items.len()
        invariant
            i <= items.len(),
            model == items_model(items@),
            racing_search(model, number@, 0) == racing_search(model, number@, i as int),
        decreases items.len() - i,
    {
        if carries_racing_number(&items[i], number) {
            return i;
        }
        i += 1;
    }
    i
}

/// A longer string of digits denotes no smaller a number than its prefix.
proof fn lemma_digits_prefix(s: Seq<char>, k: int)
    requires
        all_digits(s),
        0 <= k <= s.len(),
    ensures
        digits_value(s.take(k)) <= digits_value(s),
    decreases s.len() - k,
{
    if k == s.len() {
        assert(s.take(k) =~= s);
    } else {
        lemma_digits_step(s, k);
        lemma_digits_prefix(s, k + 1);
    }
}

/// One more digit multiplies the value by ten and adds the digit.
proof fn lemma_digits_step(s: Seq<char>, k: int)
    requires
        0 <= k < s.len(),
        is_digit(s[k]),
    ensures
        digits_value(s.take(k + 1)) == digits_value(s.take(k)) * 10 + (s[k] as nat - '0' as nat),
{
    assert(s.take(k + 1).drop_last() =~= s.take(k));
    assert(s.take(k + 1).last() == s[k]);
}

/// Reads `key` as a position below `bound`.
fn parse_index(key: &String, bound: usize) -> (position: Option<usize>)
    ensures
        position == match key_index(key@) {
            Some(j) => if j < bound {
                Some(j as usize)
            } else {
                None
            },
            None => None,
        },
{
    let text = key.as_str();
    let n = text.unicode_len();
    if n == 0 {
        return None;
    }
    let mut value: usize = 0;
    let mut i: usize = 0;
    assert(key@.take(0) =~= Seq::<char>::empty());
    while i < n
        invariant
            n == key@.len(),
            text@ == key@,
            i <= n,
            all_digits(key@.take(i as int)),
            value == digits_value(key@.take(i as int)),
            i > 0 ==> value < bound,
        decreases n - i,
    {
        let c = text.get_char(i);
        if !('0' <= c && c <= '9') {
            return None;
        }
        let digit: usize = (c as u32 - '0' as u32) as usize;
        proof {
            lemma_digits_step(key@, i as int);
            if all_digits(key@) {
                lemma_digits_prefix(key@, i + 1);
            }
            assert forall|j: int| 0 <= j < i + 1 implies is_digit(
                #[trigger] key@.take(i + 1)[j],
            ) by {
                if j < i {
                    assert(key@.take(i as int)[j] == key@[j]);
                }
            }
        }
        let shifted = match value.checked_mul(10) {
            Some(shifted) => shifted,
            None => {
                return None;
            },
        };
        let next = match shifted.checked_add(digit) {
            Some(next) => next,
            None => {
                return None;
            },
        };
        if next >= bound {
            return None;
        }
        value = next;
        i += 1;
    }
    assert(key@.take(n as int) =~= key@);
    Some(value)
}

/// Whether `value` is a list all of whose elements are mappings.
fn is_list_of_mappings(value: &Node) -> (yes: bool)
    ensures
        yes == (value@ is List && all_mappings(value@->List_0)),
{
    match value {
        Node::Array(items) => {
            proof {
                lemma_array_view(*value);
            }
            let mut i: usize = 0;
            while i < items.len()
                invariant
                    i <= items.len(),
                    value@ == Doc::List(items_model(items@)),
                    forall|j: int| 0 <= j < i ==> #[trigger] items_model(items@)[j] is Mapping,
                decreases items.len() - i,
            {
                match &items[i] {
                    Node::Object(_) => {},
                    _ => {
                        assert(!(value@->List_0[i as int] is Mapping));
                        return false;
                    },
                }
                i += 1;
            }
            true
        },
        _ => false,
    }
}

/// Whether `value` is a list all of whose elements are integers.
fn is_list_of_integers(value: &Node) -> (yes: bool)
    ensures
        yes == is_index_list(value@),
{
    match value {
        Node::Array(items) => {
            proof {
                lemma_array_view(*value);
            }
            let mut i: usize = 0;
            while i < items.len()
                invariant
                    i <= items.len(),
                    value@ == Doc::List(items_model(items@)),
                    forall|j: int| 0 <= j < i ==> is_integer(#[trigger] items_model(items@)[j]),
                decreases items.len() - i,
            {
                let whole = match &items[i] {
                    Node::Number(Number::PosInt(_)) => true,
                    Node::Number(Number::NegInt(_)) => true,
                    _ => false,
                };
                if !whole {
                    assert(!is_integer(value@->List_0[i as int]));
                    return false;
                }
                i += 1;
            }
            true
        },
        _ => false,
    }
}

/// Flags every element that one of `indices` refers to.
fn mark_items(items: &mut Vec<Node>, indices: &Vec<Node>)
    ensures
        items_model(final(items)@) == marked_items(
            items_model(old(items)@),
            items_model(indices@),
            indices@.len(),
        ),
{
    let mut n: usize = 0;
    while n < indices.len()
        invariant
            n <= indices.len(),
            items_model(items@) == marked_items(
                items_model(old(items)@),
                items_model(indices@),
                n as nat,
            ),
        decreases indices.len() - n,
    {
        let ghost before = items_model(items@);
        match &indices[n] {
            Node::Number(Number::PosInt(u)) => {
                if *u < items.len() as u64 {
                    mark(&mut items[*u as usize]);
                    assert(items_model(items@) =~= before.update(*u as int, marked(before[*u as int])));
                }
            },
            Node::Number(Number::NegInt(i)) => {
                if 0 <= *i && (*i as u64) < items.len() as u64 {
                    mark(&mut items[*i as usize]);
                    assert(items_model(items@) =~= before.update(*i as int, marked(before[*i as int])));
                }
            },
            _ => {},
        }
        n += 1;
    }
}

/// Appends copies of the patch's elements to the base list.
fn append_items(base: &mut Vec<Node>, patch: &Vec<Node>)
    ensures
        items_model(final(base)@) == items_model(old(base)@) + items_model(patch@),
{
    let mut n: usize = 0;
    while n < patch.len()
        invariant
            n <= patch.len(),
            items_model(base@) == items_model(old(base)@) + items_model(patch@).take(n as int),
        decreases patch.len() - n,
    {
        let ghost before = items_model(base@);
        let item = patch[n].clone();
        base.push(item);
        assert(items_model(base@) =~= before.push(items_model(patch@)[n as int]));
        assert(items_model(patch@).take(n + 1) =~= items_model(patch@).take(n as int).push(
            items_model(patch@)[n as int],
        ));
        n += 1;
    }
    assert(items_model(patch@).take(patch@.len() as int) =~= items_model(patch@));
}

/// Applies a mapping patch to a mapping, entry by entry.
fn merge_entries(base: &mut Vec<(String, Node)>, patch: &Vec<(String, Node)>)
    ensures
        entries_model(final(base)@) == merged_entries(
            entries_model(old(base)@),
            entries_model(patch@),
            patch@.len(),
        ),
    decreases patch, 0nat,
{
    let mut n: usize = 0;
    while n < patch.len()
        invariant
            n <= patch.len(),
            entries_model(base@) == merged_entries(
                entries_model(old(base)@),
                entries_model(patch@),
                n as nat,
            ),
        decreases patch.len() - n,
    {
        let ghost before = entries_model(base@);
        let i = find_key(base, &patch[n].0);
        if i < base.len() {
            merge(&mut base[i].1, &patch[n].1);
            assert(entries_model(base@) =~= before.update(
                i as int,
                (before[i as int].0, merged(before[i as int].1, patch@[n as int].1@)),
            ));
        } else {
            let key = patch[n].0.clone();
            let value = patch[n].1.clone();
            base.push((key, value));
            assert(entries_model(base@) =~= before.push((patch@[n as int].0@, patch@[n as int].1@)));
        }
        n += 1;
    }
}

/// Applies a mapping patch to a list of mappings, entry by entry.
fn merge_keyed(base: &mut Vec<Node>, patch: &Vec<(String, Node)>)
    ensures
        items_model(final(base)@) == merged_keyed(
            items_model(old(base)@),
            entries_model(patch@),
            patch@.len(),
        ),
    decreases patch, 0nat,
{
    let mut n: usize = 0;
    while n < patch.len()
        invariant
            n <= patch.len(),
            items_model(base@) == merged_keyed(
                items_model(old(base)@),
                entries_model(patch@),
                n as nat,
            ),
        decreases patch.len() - n,
    {
        let ghost before = items_model(base@);
        let key = &patch[n].0;
        let value = &patch[n].1;
        if is_key(key, "_deleted") && is_list_of_integers(value) {
            match value {
                Node::Array(indices) => {
                    proof {
                        lemma_array_view(*value);
                    }
                    mark_items(base, indices);
                },
                _ => {},
            }
        } else {
            let i = find_racing_number(base, key);
            if i < base.len() {
                merge(&mut base[i], value);
                assert(items_model(base@) =~= before.update(
                    i as int,
                    merged(before[i as int], value@),
                ));
            } else {
                match parse_index(key, base.len()) {
                    Some(j) => {
                        merge(&mut base[j], value);
                        assert(items_model(base@) =~= before.update(
                            j as int,
                            merged(before[j as int], value@),
                        ));
                    },
                    None => {},
                }
            }
        }
        n += 1;
    }
}

/// Applies `patch` to `base` in place.
///
/// Afterwards `base` is the document that [`merged`] gives for its earlier
/// value and the patch. There is no error: a combination of shapes for which
/// no rule is made has the patch replace the base.
pub fn merge(base: &mut Node, patch: &Node)
    ensures
        final(base)@ == merged(old(base)@, patch@),
    decreases patch, 1nat,
{
    match patch {
        Node::Object(entries) => {
            proof {
                lemma_object_view(*patch);
            }
            if is_list_of_mappings(base) {
                match base {
                    Node::Array(items) => {
                        proof {
                            lemma_array_view(*old(base));
                        }
                        merge_keyed(items, entries);
                    },
                    _ => {},
                }
                proof {
                    lemma_array_view(*base);
                }
            } else {
                match base {
                    Node::Object(fields) => {
                        proof {
                            lemma_object_view(*old(base));
                        }
                        merge_entries(fields, entries);
                        proof {
                            lemma_object_view(*base);
                        }
                    },
                    _ => {
                        *base = patch.clone();
                    },
                }
            }
        },
        Node::Array(elements) => {
            proof {
                lemma_array_view(*patch);
            }
            match base {
                Node::Array(items) => {
                    proof {
                        lemma_array_view(*old(base));
                    }
                    append_items(items, elements);
                    proof {
                        lemma_array_view(*base);
                    }
                },
                _ => {
                    *base = patch.clone();
                },
            }
        },
        _ => {
            *base = patch.clone();
        },
    }
}

} // verus!
