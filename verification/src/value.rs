//! The generic document tree and its mathematical model.

use vstd::prelude::*;

verus! {

/// A JSON number, kept without loss.
///
/// A float is carried as the sixty-four bits of its binary representation, so
/// that the tree can be compared and copied exactly.
#[derive(Clone, Copy, Debug, PartialEq, Eq, Structural)]
pub enum Number {
    PosInt(u64),
    NegInt(i64),
    Float(u64),
}

/// A node of the document: both full documents and patches are of this type.
///
/// A mapping keeps its entries in order of insertion.
#[derive(Debug, PartialEq, Eq)]
pub enum Node {
    Null,
    Bool(bool),
    Number(Number),
    String(String),
    Array(Vec<Node>),
    Object(Vec<(String, Node)>),
}

/// The mathematical model of a [`Node`].
pub enum Doc {
    Null,
    Bool(bool),
    Number(Number),
    Text(Seq<char>),
    List(Seq<Doc>),
    Mapping(Seq<(Seq<char>, Doc)>),
}

impl View for Node {
    type V = Doc;

    open spec fn view(&self) -> Doc
        decreases self,
    {
        match self {
            Node::Null => Doc::Null,
            Node::Bool(b) => Doc::Bool(*b),
            Node::Number(n) => Doc::Number(*n),
            Node::String(s) => Doc::Text(s@),
            Node::Array(items) => Doc::List(
                Seq::new(
                    items@.len(),
                    |i: int|
                        if 0 <= i < items@.len() {
                            items@[i]@
                        } else {
                            Doc::Null
                        },
                ),
            ),
            Node::Object(entries) => Doc::Mapping(
                Seq::new(
                    entries@.len(),
                    |i: int|
                        if 0 <= i < entries@.len() {
                            (entries@[i].0@, entries@[i].1@)
                        } else {
                            (Seq::empty(), Doc::Null)
                        },
                ),
            ),
        }
    }
}

/// The model of a run of list elements.
pub open spec fn items_model(items: Seq<Node>) -> Seq<Doc> {
    Seq::new(items.len(), |i: int| items[i]@)
}

/// The model of a run of mapping entries.
pub open spec fn entries_model(entries: Seq<(String, Node)>) -> Seq<(Seq<char>, Doc)> {
    Seq::new(entries.len(), |i: int| (entries[i].0@, entries[i].1@))
}

/// A list value is modelled by the models of its elements.
pub proof fn lemma_array_view(v: Node)
    requires
        v is Array,
    ensures
        v@ == Doc::List(items_model(v->Array_0@)),
{
    reveal_with_fuel(<Node as View>::view, 2);
    assert(v@->List_0 =~= items_model(v->Array_0@));
}

/// A mapping value is modelled by the models of its entries.
pub proof fn lemma_object_view(v: Node)
    requires
        v is Object,
    ensures
        v@ == Doc::Mapping(entries_model(v->Object_0@)),
{
    reveal_with_fuel(<Node as View>::view, 2);
    assert(v@->Mapping_0 =~= entries_model(v->Object_0@));
}

impl Clone for Node {
    /// A deep copy: the copy has the model of the node copied.
    fn clone(&self) -> (copy: Node)
        ensures
            copy@ == self@,
        decreases self,
    {
        match self {
            Node::Null => Node::Null,
            Node::Bool(b) => Node::Bool(*b),
            Node::Number(n) => Node::Number(*n),
            Node::String(s) => Node::String(s.clone()),
            Node::Array(items) => {
                let mut copies: Vec<Node> = Vec::new();
                let mut i: usize = 0;
                while i < items.len()
                    invariant
                        i <= items.len(),
                        self is Array && self->Array_0 == items,
                        copies@.len() == i,
                        forall|j: int| 0 <= j < i ==> copies@[j]@ == items@[j]@,
                    decreases items.len() - i,
                {
                    let item = items[i].clone();
                    copies.push(item);
                    i += 1;
                }
                let copy = Node::Array(copies);
                proof {
                    lemma_array_view(copy);
                    lemma_array_view(*self);
                    assert(items_model(copies@) =~= items_model(items@));
                }
                copy
            },
            Node::Object(entries) => {
                let mut copies: Vec<(String, Node)> = Vec::new();
                let mut i: usize = 0;
                while i < entries.len()
                    invariant
                        i <= entries.len(),
                        self is Object && self->Object_0 == entries,
                        copies@.len() == i,
                        forall|j: int|
                            0 <= j < i ==> copies@[j].0@ == entries@[j].0@ && copies@[j].1@
                                == entries@[j].1@,
                    decreases entries.len() - i,
                {
                    let key = entries[i].0.clone();
                    let value = entries[i].1.clone();
                    copies.push((key, value));
                    i += 1;
                }
                let copy = Node::Object(copies);
                proof {
                    lemma_object_view(copy);
                    lemma_object_view(*self);
                    assert(entries_model(copies@) =~= entries_model(entries@));
                }
                copy
            },
        }
    }
}

} // verus!
