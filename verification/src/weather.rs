//! The course of the weather: what the weather updates of the log held, column
//! by column.

use crate::history::{borrowed_model, patches_of, History};
use crate::merge::key_search;
use crate::value::{entries_model, items_model, lemma_array_view, lemma_object_view, Doc, Node};
use vstd::prelude::*;

verus! {

/// The columns with `value` added at the end of the column `key`; a key without
/// a column gets a new one, after the others.
pub open spec fn with_reading(
    columns: Seq<(Seq<char>, Seq<Doc>)>,
    key: Seq<char>,
    value: Doc,
) -> Seq<(Seq<char>, Seq<Doc>)> {
    let i = key_search(columns, key, 0);
    if i < columns.len() {
        columns.update(i, (columns[i].0, columns[i].1.push(value)))
    } else {
        columns.push((key, seq![value]))
    }
}

/// The columns after the first `n` entries of a patch have been added.
pub open spec fn with_readings(
    columns: Seq<(Seq<char>, Seq<Doc>)>,
    entries: Seq<(Seq<char>, Doc)>,
    n: nat,
) -> Seq<(Seq<char>, Seq<Doc>)>
    decreases n,
{
    if n == 0 || n > entries.len() {
        columns
    } else {
        with_reading(
            with_readings(columns, entries, (n - 1) as nat),
            entries[n - 1].0,
            entries[n - 1].1,
        )
    }
}

/// The columns that the first `n` patches give: for each key that a patch
/// holds, the values that the patches held under it, oldest first. A patch
/// that is no mapping gives nothing.
pub open spec fn gathered(patches: Seq<Doc>, n: nat) -> Seq<(Seq<char>, Seq<Doc>)>
    decreases n,
{
    if n == 0 || n > patches.len() {
        Seq::empty()
    } else {
        let earlier = gathered(patches, (n - 1) as nat);
        match patches[n - 1] {
            Doc::Mapping(entries) => with_readings(earlier, entries, entries.len()),
            _ => earlier,
        }
    }
}

/// The models of a run of columns.
pub open spec fn columns_model(columns: Seq<(String, Vec<Node>)>) -> Seq<(Seq<char>, Seq<Doc>)> {
    Seq::new(columns.len(), |i: int| (columns[i].0@, items_model(columns[i].1@)))
}

/// The mapping that holds each column as a list.
pub open spec fn columns_doc(columns: Seq<(Seq<char>, Seq<Doc>)>) -> Doc {
    Doc::Mapping(Seq::new(columns.len(), |i: int| (columns[i].0, Doc::List(columns[i].1))))
}

/// Finds the column of `key`.
fn find_column(columns: &Vec<(String, Vec<Node>)>, key: &String) -> (i: usize)
    ensures
        i == key_search(columns_model(columns@), key@, 0),
{
    let ghost model = columns_model(columns@);
    let mut i: usize = 0;
    while i < columns.len()
        invariant
            i <= columns.len(),
            model == columns_model(columns@),
            key_search(model, key@, 0) == key_search(model, key@, i as int),
        decreases columns.len() - i,
    {
        if columns[i].0 == *key {
            return i;
        }
        i += 1;
    }
    i
}

/// Adds the entries of one patch to the columns.
fn add_readings(columns: &mut Vec<(String, Vec<Node>)>, entries: &Vec<(String, Node)>)
    ensures
        columns_model(final(columns)@) == with_readings(
            columns_model(old(columns)@),
            entries_model(entries@),
            entries@.len(),
        ),
{
    let mut n: usize = 0;
    while n < entries.len()
        invariant
            n <= entries.len(),
            columns_model(columns@) == with_readings(
                columns_model(old(columns)@),
                entries_model(entries@),
                n as nat,
            ),
        decreases entries.len() - n,
    {
        let ghost before = columns_model(columns@);
        let value = entries[n].1.clone();
        let i = find_column(columns, &entries[n].0);
        if i < columns.len() {
            let ghost column = items_model(columns@[i as int].1@);
            columns[i].1.push(value);
            assert(items_model(columns@[i as int].1@) =~= column.push(value@));
            assert(columns_model(columns@) =~= before.update(
                i as int,
                (before[i as int].0, before[i as int].1.push(value@)),
            ));
        } else {
            let key = entries[n].0.clone();
            let mut column: Vec<Node> = Vec::new();
            column.push(value);
            assert(items_model(column@) =~= seq![value@]);
            columns.push((key, column));
            assert(columns_model(columns@) =~= before.push((key@, seq![value@])));
        }
        n += 1;
    }
}

impl History {
    /// The course of the weather: for each column of the weather updates, the
    /// values that it took, oldest first, as a mapping from column to list.
    pub fn weather_history(&self) -> (history: Node)
        ensures
            history@ == columns_doc(
                gathered(
                    patches_of(self.updates@, "WeatherData"@, self.updates@.len()),
                    patches_of(self.updates@, "WeatherData"@, self.updates@.len()).len(),
                ),
            ),
    {
        let patches = self.filter_updates("WeatherData");
        let mut columns: Vec<(String, Vec<Node>)> = Vec::new();
        let mut n: usize = 0;
        assert(columns_model(columns@) =~= gathered(borrowed_model(patches@), 0));
        while n < patches.len()
            invariant
                n <= patches.len(),
                columns_model(columns@) == gathered(borrowed_model(patches@), n as nat),
            decreases patches.len() - n,
        {
            match patches[n] {
                Node::Object(entries) => {
                    proof {
                        lemma_object_view(*patches@[n as int]);
                    }
                    add_readings(&mut columns, entries);
                },
                _ => {},
            }
            n += 1;
        }
        let mut fields: Vec<(String, Node)> = Vec::new();
        let mut c: usize = 0;
        while c < columns.len()
            invariant
                c <= columns.len(),
                fields@.len() == c,
                forall|i: int|
                    0 <= i < c ==> fields@[i].0@ == columns@[i].0@ && fields@[i].1@ == Doc::List(
                        items_model(columns@[i].1@),
                    ),
            decreases columns.len() - c,
        {
            let key = columns[c].0.clone();
            let mut values: Vec<Node> = Vec::new();
            let mut k: usize = 0;
            while k < columns[c].1.len()
                invariant
                    c < columns.len(),
                    k <= columns@[c as int].1@.len(),
                    values@.len() == k,
                    forall|i: int| 0 <= i < k ==> values@[i]@ == columns@[c as int].1@[i]@,
                decreases columns@[c as int].1@.len() - k,
            {
                let value = columns[c].1[k].clone();
                values.push(value);
                k += 1;
            }
            let list = Node::Array(values);
            proof {
                lemma_array_view(list);
                assert(items_model(values@) =~= items_model(columns@[c as int].1@));
            }
            fields.push((key, list));
            c += 1;
        }
        let history = Node::Object(fields);
        proof {
            lemma_object_view(history);
            assert(entries_model(fields@) =~= columns_doc(columns_model(columns@))->Mapping_0);
        }
        history
    }
}

} // verus!
