//! Laws of the merge engine, proved of [`merged`].

use crate::merge::{
    all_mappings, field, has_racing_number, integer_of, key_search, marked, marked_items, merged,
    merged_entries, merged_keyed, racing_search, with_entry,
};
use crate::value::Doc;
use vstd::prelude::*;

verus! {

/// A value that is neither a mapping nor a list.
pub open spec fn is_leaf(doc: Doc) -> bool {
    !(doc is Mapping) && !(doc is List)
}

/// The mapping patch with the one entry `key: value`.
pub open spec fn single(key: Seq<char>, value: Doc) -> Doc {
    Doc::Mapping(seq![(key, value)])
}

/// What a search from `from` finds: an entry with the key that no earlier
/// entry from `from` on has, or the end.
pub proof fn lemma_key_search_found<V>(entries: Seq<(Seq<char>, V)>, key: Seq<char>, from: int)
    requires
        0 <= from <= entries.len(),
    ensures
        from <= key_search(entries, key, from) <= entries.len(),
        key_search(entries, key, from) < entries.len() ==> entries[key_search(
            entries,
            key,
            from,
        )].0 == key,
        forall|j: int| from <= j < key_search(entries, key, from) ==> entries[j].0 != key,
    decreases entries.len() - from,
{
    if from < entries.len() && entries[from].0 != key {
        lemma_key_search_found(entries, key, from + 1);
    }
}

/// A search is decided by the keys alone, up to the place it stops at.
pub proof fn lemma_key_search_position<V>(
    entries: Seq<(Seq<char>, V)>,
    key: Seq<char>,
    from: int,
    at: int,
)
    requires
        0 <= from <= at <= entries.len(),
        forall|j: int| from <= j < at ==> entries[j].0 != key,
        at < entries.len() ==> entries[at].0 == key,
    ensures
        key_search(entries, key, from) == at,
    decreases at - from,
{
    if from < at {
        lemma_key_search_position(entries, key, from + 1, at);
    }
}

/// Flagging an element twice is flagging it once.
pub proof fn lemma_marked_idempotent(doc: Doc)
    ensures
        marked(marked(doc)) == marked(doc),
{
    if doc is Mapping {
        let entries = doc->Mapping_0;
        let key = "deleted"@;
        let flag = Doc::Bool(true);
        let once = with_entry(entries, key, flag);
        let i = key_search(entries, key, 0);
        lemma_key_search_found(entries, key, 0);
        lemma_key_search_position(once, key, 0, i);
        assert(with_entry(once, key, flag) =~= once);
    }
}

/// Whether one of the first `n` of `indices` is the integer `position`.
pub open spec fn refers_to(indices: Seq<Doc>, n: nat, position: int) -> bool {
    exists|k: int|
        0 <= k < n && k < indices.len() && indices[k] is Number && integer_of(
            #[trigger] indices[k]->Number_0,
        ) == Some(position)
}

/// Flagging keeps the length of the list, flags exactly the elements that an
/// index refers to, and leaves every other element as it was.
pub proof fn lemma_marked_items(items: Seq<Doc>, indices: Seq<Doc>, n: nat)
    requires
        n <= indices.len(),
    ensures
        marked_items(items, indices, n).len() == items.len(),
        forall|j: int|
            0 <= j < items.len() ==> #[trigger] marked_items(items, indices, n)[j] == if refers_to(
                indices,
                n,
                j,
            ) {
                marked(items[j])
            } else {
                items[j]
            },
    decreases n,
{
    if n > 0 {
        let earlier = marked_items(items, indices, (n - 1) as nat);
        let after = marked_items(items, indices, n);
        lemma_marked_items(items, indices, (n - 1) as nat);
        let last = indices[n - 1];
        let hit: Option<int> = if last is Number {
            integer_of(last->Number_0)
        } else {
            None
        };
        assert forall|j: int| 0 <= j < items.len() implies #[trigger] after[j] == if refers_to(
            indices,
            n,
            j,
        ) {
            marked(items[j])
        } else {
            items[j]
        } by {
            lemma_marked_idempotent(items[j]);
            if refers_to(indices, (n - 1) as nat, j) {
                let k = choose|k: int|
                    0 <= k < n - 1 && k < indices.len() && indices[k] is Number && integer_of(
                        #[trigger] indices[k]->Number_0,
                    ) == Some(j);
                assert(0 <= k < n && integer_of(indices[k]->Number_0) == Some(j));
            }
            if hit == Some(j) {
                assert(integer_of(indices[n - 1]->Number_0) == Some(j));
            }
            if refers_to(indices, n, j) && !refers_to(indices, (n - 1) as nat, j) {
                let k = choose|k: int|
                    0 <= k < n && k < indices.len() && indices[k] is Number && integer_of(
                        #[trigger] indices[k]->Number_0,
                    ) == Some(j);
                if k < n - 1 {
                    assert(integer_of(indices[k]->Number_0) == Some(j));
                }
            }
        }
    }
}

/// A search for a racing number stops at or after its start, inside the list
/// or at its end.
pub proof fn lemma_racing_search_bounds(items: Seq<Doc>, number: Seq<char>, from: int)
    requires
        0 <= from <= items.len(),
    ensures
        from <= racing_search(items, number, from) <= items.len(),
    decreases items.len() - from,
{
    if from < items.len() && !has_racing_number(items[from], number) {
        lemma_racing_search_bounds(items, number, from + 1);
    }
}

/// A keyed merge keeps the length of the list./// A keyed merge keeps the length of the list.
pub proof fn lemma_merged_keyed_len(base: Seq<Doc>, patch: Seq<(Seq<char>, Doc)>, n: nat)
    requires
        n <= patch.len(),
    ensures
        merged_keyed(base, patch, n).len() == base.len(),
    decreases n,
{
    if n > 0 {
        lemma_merged_keyed_len(base, patch, (n - 1) as nat);
        let earlier = merged_keyed(base, patch, (n - 1) as nat);
        lemma_racing_search_bounds(earlier, patch[n - 1].0, 0);
        if patch[n - 1].1 is List {
            let indices = patch[n - 1].1->List_0;
            lemma_marked_items(earlier, indices, indices.len());
        }
    }
}

/// A mapping never shrinks under a mapping patch: every entry of the base
/// keeps its place and its key.
pub proof fn lemma_merged_entries_keeps_keys(
    base: Seq<(Seq<char>, Doc)>,
    patch: Seq<(Seq<char>, Doc)>,
    n: nat,
)
    requires
        n <= patch.len(),
    ensures
        merged_entries(base, patch, n).len() >= base.len(),
        forall|i: int| 0 <= i < base.len() ==> merged_entries(base, patch, n)[i].0 == base[i].0,
    decreases n,
{
    if n > 0 {
        lemma_merged_entries_keeps_keys(base, patch, (n - 1) as nat);
        let earlier = merged_entries(base, patch, (n - 1) as nat);
        lemma_key_search_found(earlier, patch[n - 1].0, 0);
    }
}

/// Merged into nothing, a patch gives itself: a key that a mapping lacks gets
/// the patch's value.
pub proof fn lemma_merged_into_null(patch: Doc)
    ensures
        merged(Doc::Null, patch) == patch,
{
}

/// No-op law: an empty mapping patch leaves a mapping, and a list of mappings,
/// as it was.
pub proof fn lemma_merge_empty_mapping(base: Doc)
    requires
        base is Mapping || (base is List && all_mappings(base->List_0)),
    ensures
        merged(base, Doc::Mapping(Seq::empty())) == base,
{
    let none = Seq::<(Seq<char>, Doc)>::empty();
    if base is Mapping {
        assert(merged_entries(base->Mapping_0, none, 0) == base->Mapping_0);
    } else {
        assert(merged_keyed(base->List_0, none, 0) == base->List_0);
    }
}

/// Last applied wins: once a one-entry patch with a leaf value is merged into a
/// mapping, the mapping holds that leaf under the entry's key.
pub proof fn lemma_last_applied_wins(base: Doc, key: Seq<char>, leaf: Doc)
    requires
        base is Mapping,
        is_leaf(leaf),
    ensures
        field(merged(base, single(key, leaf)), key) == Some(leaf),
{
    let entries = base->Mapping_0;
    let patch = seq![(key, leaf)];
    assert(merged_entries(entries, patch, 0) == entries);
    let after = merged_entries(entries, patch, 1);
    let i = key_search(entries, key, 0);
    lemma_key_search_found(entries, key, 0);
    assert(patch[0] == (key, leaf));
    if i < entries.len() {
        assert(merged(entries[i].1, leaf) == leaf);
        assert(after == entries.update(i, (entries[i].0, leaf)));
    } else {
        assert(after == entries.push((key, leaf)));
    }
    lemma_key_search_position(after, key, 0, i);
}

/// Order matters: two one-entry patches that give the same key different leaf
/// values leave different documents, depending on which is merged last.
pub proof fn lemma_merge_order_matters(base: Doc, key: Seq<char>, first: Doc, second: Doc)
    requires
        base is Mapping,
        is_leaf(first),
        is_leaf(second),
        first != second,
    ensures
        merged(merged(base, single(key, first)), single(key, second)) != merged(
            merged(base, single(key, second)),
            single(key, first),
        ),
{
    lemma_last_applied_wins(merged(base, single(key, first)), key, second);
    lemma_last_applied_wins(merged(base, single(key, second)), key, first);
}

} // verus!
