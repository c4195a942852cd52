//! The tree of JSON values that the resolver walks.
//!
//! A [`Node`] is any JSON value. An object is a list of [`Entry`] pairs,
//! with unique keys and insertion order preserved for output stability.
//! Numbers are carried as their literal decimal text: the resolver never
//! computes with them, it only passes them through.
//!
//! The mathematical model of a tree is a [`NodeView`], built from sequences
//! of characters and of child views; [`vstd::view::DeepView`] maps one to
//! the other.

use vstd::prelude::*;

verus! {

broadcast use vstd::std_specs::vec::axiom_vec_index_decreases;

/// A JSON value.
#[derive(Debug, PartialEq, Eq)]
pub enum Node {
    Null,
    Bool(bool),
    /// A JSON number, kept as its literal text.
    Num(String),
    Str(String),
    Arr(Vec<Node>),
    Obj(Vec<Entry>),
}

/// One field of a JSON object: a key and its value.
#[derive(Debug, PartialEq, Eq)]
pub struct Entry {
    pub key: String,
    pub value: Node,
}

/// The mathematical model of a JSON value.
pub enum NodeView {
    Null,
    Bool(bool),
    Num(Seq<char>),
    Str(Seq<char>),
    Arr(Seq<NodeView>),
    Obj(Seq<EntryView>),
}

/// The mathematical model of one object field.
pub struct EntryView {
    pub key: Seq<char>,
    pub value: NodeView,
}

/// The model of a JSON value.
pub open spec fn node_view(n: Node) -> NodeView
    decreases n,
{
    match n {
        Node::Null => NodeView::Null,
        Node::Bool(b) => NodeView::Bool(b),
        Node::Num(s) => NodeView::Num(s@),
        Node::Str(s) => NodeView::Str(s@),
        Node::Arr(elems) => NodeView::Arr(
            Seq::new(
                elems@.len(),
                |i: int|
                    if 0 <= i < elems@.len() {
                        node_view(elems@[i])
                    } else {
                        NodeView::Null
                    },
            ),
        ),
        Node::Obj(fields) => NodeView::Obj(
            Seq::new(
                fields@.len(),
                |i: int|
                    if 0 <= i < fields@.len() {
                        entry_view(fields@[i])
                    } else {
                        EntryView { key: Seq::empty(), value: NodeView::Null }
                    },
            ),
        ),
    }
}

/// The model of one object field.
pub open spec fn entry_view(e: Entry) -> EntryView
    decreases e,
{
    EntryView { key: e.key@, value: node_view(e.value) }
}

impl DeepView for Node {
    type V = NodeView;

    open spec fn deep_view(&self) -> NodeView {
        node_view(*self)
    }
}

impl DeepView for Entry {
    type V = EntryView;

    open spec fn deep_view(&self) -> EntryView {
        entry_view(*self)
    }
}

/// An object node's model is the model of its field list.
pub broadcast proof fn lemma_obj_view(fields: Vec<Entry>)
    ensures
        #[trigger] node_view(Node::Obj(fields)) == NodeView::Obj(fields.deep_view()),
{
    assert(node_view(Node::Obj(fields))->Obj_0 =~= fields.deep_view());
}

/// An array node's model is the model of its element list.
pub broadcast proof fn lemma_arr_view(elems: Vec<Node>)
    ensures
        #[trigger] node_view(Node::Arr(elems)) == NodeView::Arr(elems.deep_view()),
{
    assert(node_view(Node::Arr(elems))->Arr_0 =~= elems.deep_view());
}

/// Relies on str's PartialEq: two string slices are equal exactly when
/// their character sequences are.
#[verifier::external_body]
pub fn str_eq(a: &str, b: &str) -> (r: bool)
    ensures
        r == (a@ == b@),
{
    a == b
}

/// Whether some field of `fields` has key `k`.
pub open spec fn has_key(fields: Seq<EntryView>, k: Seq<char>) -> bool {
    exists|i: int| 0 <= i < fields.len() && fields[i].key == k
}

/// The value of the first field of `fields` whose key is `k`.
pub open spec fn value_of(fields: Seq<EntryView>, k: Seq<char>) -> NodeView
    decreases fields.len(),
{
    if fields.len() == 0 {
        NodeView::Null
    } else if fields[0].key == k {
        fields[0].value
    } else {
        value_of(fields.drop_first(), k)
    }
}

/// A copy of a node with the same model. Derived `Clone` would say nothing
/// to the verifier, so the copy is spelled out.
pub fn clone_node(n: &Node) -> (r: Node)
    ensures
        r.deep_view() == n.deep_view(),
    decreases n,
{
    match n {
        Node::Null => Node::Null,
        Node::Bool(b) => Node::Bool(*b),
        Node::Num(s) => Node::Num(s.clone()),
        Node::Str(s) => Node::Str(s.clone()),
        Node::Arr(elems) => {
            let mut out: Vec<Node> = Vec::new();
            let mut i: usize = 0;
            while i < elems.len()
                invariant
                    i <= elems.len(),
                    out@.len() == i,
                    *n == Node::Arr(*elems),
                    forall|j: int| 0 <= j < i ==> out.deep_view()[j] == elems.deep_view()[j],
                decreases elems.len() - i,
            {
                proof {
                    assert(decreases_to!(*n => n->Arr_0)); assert(n->Arr_0 == *elems);
                    assert(decreases_to!(*elems => elems@[i as int]));
                }
                out.push(clone_node(&elems[i]));
                i = i + 1;
            }
            proof {
                assert(out.deep_view() =~= elems.deep_view());
                lemma_arr_view(out);
                lemma_arr_view(*elems);
                assert(*n == Node::Arr(*elems));
            }
            Node::Arr(out)
        },
        Node::Obj(fields) => {
            let mut out: Vec<Entry> = Vec::new();
            let mut i: usize = 0;
            while i < fields.len()
                invariant
                    i <= fields.len(),
                    out@.len() == i,
                    *n == Node::Obj(*fields),
                    forall|j: int| 0 <= j < i ==> out.deep_view()[j] == fields.deep_view()[j],
                decreases fields.len() - i,
            {
                proof {
                    assert(decreases_to!(*n => n->Obj_0)); assert(n->Obj_0 == *fields);
                    assert(decreases_to!(*fields => fields@[i as int]));
                }
                out.push(clone_entry(&fields[i]));
                i = i + 1;
            }
            proof {
                assert(out.deep_view() =~= fields.deep_view());
                lemma_obj_view(out);
                lemma_obj_view(*fields);
                assert(*n == Node::Obj(*fields));
            }
            Node::Obj(out)
        },
    }
}

/// A node and its model are always the same kind of JSON value, and a
/// string node's model carries the same characters.
pub broadcast proof fn lemma_view_variants(v: Node)
    ensures
        #![trigger node_view(v)]
        (node_view(v) is Null <==> v is Null),
        (node_view(v) is Bool <==> v is Bool),
        (node_view(v) is Num <==> v is Num),
        (node_view(v) is Str <==> v is Str),
        (node_view(v) is Arr <==> v is Arr),
        (node_view(v) is Obj <==> v is Obj),
        v is Str ==> node_view(v)->Str_0 == v->Str_0@,
{
    match v {
        Node::Null => {},
        Node::Bool(_) => {},
        Node::Num(_) => {},
        Node::Str(_) => {},
        Node::Arr(_) => {},
        Node::Obj(_) => {},
    }
}

/// A copy of one object field with the same model.
pub fn clone_entry(e: &Entry) -> (r: Entry)
    ensures
        r.deep_view() == e.deep_view(),
    decreases e,
{
    Entry { key: e.key.clone(), value: clone_node(&e.value) }
}

/// A copy of an object's field list with the same model.
pub fn clone_entries(fields: &Vec<Entry>) -> (r: Vec<Entry>)
    ensures
        r.deep_view() == fields.deep_view(),
{
    let mut out: Vec<Entry> = Vec::new();
    let mut i: usize = 0;
    while i < fields.len()
        invariant
            i <= fields.len(),
            out@.len() == i,
            forall|j: int| 0 <= j < i ==> out.deep_view()[j] == fields.deep_view()[j],
        decreases fields.len() - i,
    {
        out.push(clone_entry(&fields[i]));
        i = i + 1;
    }
    proof {
        assert(out.deep_view() =~= fields.deep_view());
    }
    out
}

/// Whether some field of `fields` has key `k`, decided by scanning.
pub fn fields_have_key(fields: &Vec<Entry>, k: &str) -> (r: bool)
    ensures
        r == has_key(fields.deep_view(), k@),
{
    let mut i: usize = 0;
    while i < fields.len()
        invariant
            i <= fields.len(),
            forall|j: int| 0 <= j < i ==> fields.deep_view()[j].key != k@,
        decreases fields.len() - i,
    {
        if str_eq(fields[i].key.as_str(), k) {
            proof {
                assert(fields.deep_view()[i as int].key == k@);
            }
            return true;
        }
        i = i + 1;
    }
    false
}

/// Whether the keys of `fields` are pairwise distinct.
pub open spec fn keys_unique(fields: Seq<EntryView>) -> bool {
    forall|i: int, j: int|
        0 <= i < j < fields.len() ==> fields[i].key != fields[j].key
}

} // verus!
