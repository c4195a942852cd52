//! The resolver: depth-bounded expansion of linked JSON-LD documents.
//!
//! Expansion works against a [`DocTable`] snapshot: every document the walk
//! would fetch is read from the table, and a URL the table does not know is
//! collected into a list of missing URLs instead (the walk treats it as a
//! soft failure, exactly as it treats a recorded transport failure). The
//! caller fetches the missing URLs, records them, and runs the walk again;
//! once nothing is missing the result is final.
//!
//! The spec functions here are the resolver's full functional model: one
//! family gives the expanded value, a second gives the list of URLs that
//! expansion consulted but the table did not hold.

use vstd::prelude::*;

use crate::keys::{context_key, id_key, ref_key, type_key};
use crate::node::{has_key, str_eq, Entry, EntryView, Node, NodeView};
use crate::table::{DocTable, FetchOutcome, OutcomeView};

verus! {

broadcast use
    vstd::std_specs::vec::axiom_vec_index_decreases,
    crate::node::lemma_obj_view,
    crate::node::lemma_arr_view,
;

/// A hard failure of a top-level load.
#[derive(Debug, PartialEq, Eq)]
pub enum LoadError {
    /// The transfer failed: no body was obtained for this URL.
    Transport { url: String },
    /// The body was not JSON; carries the parse diagnostic.
    NotJson { url: String, cause: String },
    /// The body was JSON, but not an object at the top level.
    NotAnObject { url: String },
}

/// The model of a hard failure.
pub enum LoadErrorView {
    Transport { url: Seq<char> },
    NotJson { url: Seq<char>, cause: Seq<char> },
    NotAnObject { url: Seq<char> },
}

impl DeepView for LoadError {
    type V = LoadErrorView;

    open spec fn deep_view(&self) -> LoadErrorView {
        match self {
            LoadError::Transport { url } => LoadErrorView::Transport { url: url@ },
            LoadError::NotJson { url, cause } => LoadErrorView::NotJson {
                url: url@,
                cause: cause@,
            },
            LoadError::NotAnObject { url } => LoadErrorView::NotAnObject { url: url@ },
        }
    }
}

/// Whether a text is a syntactically valid absolute URL; url::Url::parse
/// decides, and its verdict is a function of the text alone.
pub uninterp spec fn is_url_text(s: Seq<char>) -> bool;

/// Relies on url::Url::parse: it parses an absolute URL from the given
/// string or fails, purely syntactically.
#[verifier::external_body]
fn is_valid_url(test_url: &str) -> (r: bool)
    ensures
        r == is_url_text(test_url@),
{
    url::Url::parse(test_url).is_ok()
}

// ------------------------------------------------------------------
// The value model: what expansion returns.
// ------------------------------------------------------------------

/// What a top-level load of `url` returns, given the fetched documents in
/// `t`: the expanded fields of the document, or the hard failure. A URL the
/// table does not know counts as a transport failure.
pub open spec fn load_view(
    t: Map<Seq<char>, OutcomeView>,
    url: Seq<char>,
    depth: nat,
    load_context: bool,
) -> Result<Seq<EntryView>, LoadErrorView>
    decreases depth, 9int, 0int,
{
    if !t.contains_key(url) {
        Result::Err(LoadErrorView::Transport { url })
    } else {
        match t[url] {
            OutcomeView::Transport => Result::Err(LoadErrorView::Transport { url }),
            OutcomeView::NotJson(cause) => Result::Err(LoadErrorView::NotJson { url, cause }),
            OutcomeView::NotObject => Result::Err(LoadErrorView::NotAnObject { url }),
            OutcomeView::Doc(fields) => Result::Ok(
                expand_obj_view(t, fields, depth, load_context),
            ),
        }
    }
}

/// Fields of `fetched` whose keys are not yet present, appended to `cur` in
/// fetched order: the merge keeps the referencing object's own fields.
pub open spec fn append_missing(cur: Seq<EntryView>, fetched: Seq<EntryView>) -> Seq<EntryView>
    decreases fetched.len(),
{
    if fetched.len() == 0 {
        cur
    } else {
        let prev = append_missing(cur, fetched.drop_last());
        let e = fetched.last();
        if has_key(prev, e.key) {
            prev
        } else {
            prev.push(e)
        }
    }
}

/// The object after the reference-merge pass has processed the first `n` of
/// its original fields: for each of them whose key is the identifier or the
/// reference key and whose value is a string, the document that string names
/// is loaded at `depth - 1` and its fields merged in; a failed load leaves
/// the object as it was.
pub open spec fn merged_upto(
    t: Map<Seq<char>, OutcomeView>,
    orig: Seq<EntryView>,
    n: int,
    depth: nat,
    load_context: bool,
) -> Seq<EntryView>
    decreases depth, 7int, n,
{
    if n <= 0 || depth == 0 || n > orig.len() {
        orig
    } else {
        let prev = merged_upto(t, orig, n - 1, depth, load_context);
        let e = orig[n - 1];
        if (e.key == id_key() || e.key == ref_key()) && e.value is Str {
            match load_view(t, e.value->Str_0, (depth - 1) as nat, load_context) {
                Result::Ok(fetched) => append_missing(prev, fetched),
                Result::Err(_) => prev,
            }
        } else {
            prev
        }
    }
}

/// The object after the reference-merge pass: it runs only when the object
/// has fewer than three fields (small objects are presumed to be bare
/// references).
pub open spec fn merged_fields(
    t: Map<Seq<char>, OutcomeView>,
    fields: Seq<EntryView>,
    depth: nat,
    load_context: bool,
) -> Seq<EntryView>
    decreases depth, 8int, 0int,
{
    if fields.len() < 3 {
        merged_upto(t, fields, fields.len() as int, depth, load_context)
    } else {
        fields
    }
}

/// What the field-walk pass leaves under `key` in place of `v`, inside an
/// object being expanded with budget `depth > 0`. The identifier, reference
/// and (when contexts are excluded) context keys are left untouched; arrays
/// and objects are expanded with `depth - 1`; a string that is a valid URL
/// under a key other than the type key is replaced by the document it names,
/// when that loads; everything else passes through.
pub open spec fn walk_value(
    t: Map<Seq<char>, OutcomeView>,
    key: Seq<char>,
    v: NodeView,
    depth: nat,
    load_context: bool,
) -> NodeView
    decreases depth, 5int, 0int,
{
    if depth == 0 {
        v
    } else if key == id_key() || key == ref_key() {
        v
    } else if !load_context && key == context_key() {
        v
    } else {
        match v {
            NodeView::Arr(elems) => NodeView::Arr(
                expand_arr_view(t, elems, (depth - 1) as nat, load_context),
            ),
            NodeView::Obj(fields) => NodeView::Obj(
                expand_obj_view(t, fields, (depth - 1) as nat, load_context),
            ),
            NodeView::Str(s) => if is_url_text(s) && key != type_key() {
                match load_view(t, s, (depth - 1) as nat, load_context) {
                    Result::Ok(fetched) => NodeView::Obj(fetched),
                    Result::Err(_) => v,
                }
            } else {
                v
            },
            _ => v,
        }
    }
}

/// The expansion of an object's fields: nothing at depth zero; otherwise the
/// reference-merge pass, then the field-walk pass over the merged fields.
pub open spec fn expand_obj_view(
    t: Map<Seq<char>, OutcomeView>,
    fields: Seq<EntryView>,
    depth: nat,
    load_context: bool,
) -> Seq<EntryView>
    decreases depth, 8int, 1int,
{
    if depth == 0 {
        fields
    } else {
        let merged = merged_fields(t, fields, depth, load_context);
        Seq::new(
            merged.len(),
            |i: int|
                if 0 <= i < merged.len() {
                    EntryView {
                        key: merged[i].key,
                        value: walk_value(t, merged[i].key, merged[i].value, depth, load_context),
                    }
                } else {
                    EntryView { key: Seq::empty(), value: NodeView::Null }
                },
        )
    }
}

/// What array expansion leaves in place of element `v`, with the array's
/// budget `depth > 0`: arrays and objects are expanded with `depth - 1`, a
/// string that is a valid URL is replaced by the document it names when that
/// loads, and everything else passes through. Arrays have no special keys.
pub open spec fn elem_value(
    t: Map<Seq<char>, OutcomeView>,
    v: NodeView,
    depth: nat,
    load_context: bool,
) -> NodeView
    decreases depth, 5int, 0int,
{
    if depth == 0 {
        v
    } else {
        match v {
            NodeView::Arr(elems) => NodeView::Arr(
                expand_arr_view(t, elems, (depth - 1) as nat, load_context),
            ),
            NodeView::Obj(fields) => NodeView::Obj(
                expand_obj_view(t, fields, (depth - 1) as nat, load_context),
            ),
            NodeView::Str(s) => if is_url_text(s) {
                match load_view(t, s, (depth - 1) as nat, load_context) {
                    Result::Ok(fetched) => NodeView::Obj(fetched),
                    Result::Err(_) => v,
                }
            } else {
                v
            },
            _ => v,
        }
    }
}

/// The expansion of an array: nothing at depth zero; otherwise a new array
/// of the same length, each element expanded independently and in order.
pub open spec fn expand_arr_view(
    t: Map<Seq<char>, OutcomeView>,
    elems: Seq<NodeView>,
    depth: nat,
    load_context: bool,
) -> Seq<NodeView>
    decreases depth, 8int, 0int,
{
    if depth == 0 {
        elems
    } else {
        Seq::new(
            elems.len(),
            |i: int|
                if 0 <= i < elems.len() {
                    elem_value(t, elems[i], depth, load_context)
                } else {
                    NodeView::Null
                },
        )
    }
}

// ------------------------------------------------------------------
// The misses model: which URLs expansion consulted but the table lacks.
// ------------------------------------------------------------------

/// The URLs that a top-level load of `url` consults and the table does not
/// hold, in the order the walk meets them. A URL whose outcome is recorded —
/// even as a failure — is not missing.
pub open spec fn load_misses(
    t: Map<Seq<char>, OutcomeView>,
    url: Seq<char>,
    depth: nat,
    load_context: bool,
) -> Seq<Seq<char>>
    decreases depth, 9int, 0int,
{
    if !t.contains_key(url) {
        seq![url]
    } else {
        match t[url] {
            OutcomeView::Doc(fields) => obj_misses(t, fields, depth, load_context),
            _ => Seq::empty(),
        }
    }
}

/// The URLs missed by the reference-merge pass over the first `n` original
/// fields.
pub open spec fn merge_misses_upto(
    t: Map<Seq<char>, OutcomeView>,
    orig: Seq<EntryView>,
    n: int,
    depth: nat,
    load_context: bool,
) -> Seq<Seq<char>>
    decreases depth, 7int, n,
{
    if n <= 0 || depth == 0 || n > orig.len() {
        Seq::empty()
    } else {
        let prev = merge_misses_upto(t, orig, n - 1, depth, load_context);
        let e = orig[n - 1];
        if (e.key == id_key() || e.key == ref_key()) && e.value is Str {
            prev + load_misses(t, e.value->Str_0, (depth - 1) as nat, load_context)
        } else {
            prev
        }
    }
}

/// The URLs missed while walking the value under `key`.
pub open spec fn value_misses(
    t: Map<Seq<char>, OutcomeView>,
    key: Seq<char>,
    v: NodeView,
    depth: nat,
    load_context: bool,
) -> Seq<Seq<char>>
    decreases depth, 5int, 0int,
{
    if depth == 0 {
        Seq::empty()
    } else if key == id_key() || key == ref_key() {
        Seq::empty()
    } else if !load_context && key == context_key() {
        Seq::empty()
    } else {
        match v {
            NodeView::Arr(elems) => arr_misses(t, elems, (depth - 1) as nat, load_context),
            NodeView::Obj(fields) => obj_misses(t, fields, (depth - 1) as nat, load_context),
            NodeView::Str(s) => if is_url_text(s) && key != type_key() {
                load_misses(t, s, (depth - 1) as nat, load_context)
            } else {
                Seq::empty()
            },
            _ => Seq::empty(),
        }
    }
}

/// The URLs missed by the field-walk pass over `fields`, in field order.
pub open spec fn fields_misses(
    t: Map<Seq<char>, OutcomeView>,
    fields: Seq<EntryView>,
    depth: nat,
    load_context: bool,
) -> Seq<Seq<char>>
    decreases depth, 6int, fields.len(),
{
    if fields.len() == 0 {
        Seq::empty()
    } else {
        fields_misses(t, fields.drop_last(), depth, load_context) + value_misses(
            t,
            fields.last().key,
            fields.last().value,
            depth,
            load_context,
        )
    }
}

/// The URLs missed while expanding an object: those of the merge pass, then
/// those of the field-walk pass over the merged fields.
pub open spec fn obj_misses(
    t: Map<Seq<char>, OutcomeView>,
    fields: Seq<EntryView>,
    depth: nat,
    load_context: bool,
) -> Seq<Seq<char>>
    decreases depth, 8int, 1int,
{
    if depth == 0 {
        Seq::empty()
    } else {
        let pre = if fields.len() < 3 {
            merge_misses_upto(t, fields, fields.len() as int, depth, load_context)
        } else {
            Seq::empty()
        };
        pre + fields_misses(t, merged_fields(t, fields, depth, load_context), depth, load_context)
    }
}

/// The URLs missed while walking one array element.
pub open spec fn elem_misses(
    t: Map<Seq<char>, OutcomeView>,
    v: NodeView,
    depth: nat,
    load_context: bool,
) -> Seq<Seq<char>>
    decreases depth, 5int, 0int,
{
    if depth == 0 {
        Seq::empty()
    } else {
        match v {
            NodeView::Arr(elems) => arr_misses(t, elems, (depth - 1) as nat, load_context),
            NodeView::Obj(fields) => obj_misses(t, fields, (depth - 1) as nat, load_context),
            NodeView::Str(s) => if is_url_text(s) {
                load_misses(t, s, (depth - 1) as nat, load_context)
            } else {
                Seq::empty()
            },
            _ => Seq::empty(),
        }
    }
}

/// The URLs missed by the elements of an array, in element order.
pub open spec fn elems_misses(
    t: Map<Seq<char>, OutcomeView>,
    elems: Seq<NodeView>,
    depth: nat,
    load_context: bool,
) -> Seq<Seq<char>>
    decreases depth, 6int, elems.len(),
{
    if elems.len() == 0 {
        Seq::empty()
    } else {
        elems_misses(t, elems.drop_last(), depth, load_context) + elem_misses(
            t,
            elems.last(),
            depth,
            load_context,
        )
    }
}

/// The URLs missed while expanding an array: none at depth zero.
pub open spec fn arr_misses(
    t: Map<Seq<char>, OutcomeView>,
    elems: Seq<NodeView>,
    depth: nat,
    load_context: bool,
) -> Seq<Seq<char>>
    decreases depth, 8int, 0int,
{
    if depth == 0 {
        Seq::empty()
    } else {
        elems_misses(t, elems, depth, load_context)
    }
}

// ------------------------------------------------------------------
// Lemmas about the merge pass.
// ------------------------------------------------------------------

/// The merge only appends: every field `cur` already holds stays, in place,
/// with its value.
pub proof fn lemma_append_missing_prefix(cur: Seq<EntryView>, fetched: Seq<EntryView>)
    ensures
        append_missing(cur, fetched).len() >= cur.len(),
        forall|i: int| 0 <= i < cur.len() ==> append_missing(cur, fetched)[i] == cur[i],
    decreases fetched.len(),
{
    if fetched.len() > 0 {
        lemma_append_missing_prefix(cur, fetched.drop_last());
    }
}

/// The merge pass keeps the object's original fields, in place, with their
/// values; it can only append fetched fields after them.
pub proof fn lemma_merged_upto_prefix(
    t: Map<Seq<char>, OutcomeView>,
    orig: Seq<EntryView>,
    n: int,
    depth: nat,
    load_context: bool,
)
    ensures
        merged_upto(t, orig, n, depth, load_context).len() >= orig.len(),
        forall|i: int| 0 <= i < orig.len() ==> merged_upto(t, orig, n, depth, load_context)[i]
            == orig[i],
    decreases n,
{
    if n <= 0 || depth == 0 || n > orig.len() {
    } else {
        lemma_merged_upto_prefix(t, orig, n - 1, depth, load_context);
        let prev = merged_upto(t, orig, n - 1, depth, load_context);
        let e = orig[n - 1];
        if (e.key == id_key() || e.key == ref_key()) && e.value is Str {
            match load_view(t, e.value->Str_0, (depth - 1) as nat, load_context) {
                Result::Ok(fetched) => lemma_append_missing_prefix(prev, fetched),
                Result::Err(_) => {},
            }
        }
    }
}

// ------------------------------------------------------------------
// The executable resolver.
// ------------------------------------------------------------------

/// Merges a fetched document's fields into `obj`, skipping every key that
/// `obj` already has: the referencing object's own fields win.
fn merge_fetched(obj: &mut Vec<Entry>, fetched: Vec<Entry>)
    ensures
        final(obj).deep_view() == append_missing(old(obj).deep_view(), fetched.deep_view()),
{
    let ghost cur0 = old(obj).deep_view();
    let ghost fdv = fetched.deep_view();
    let mut rest = fetched;
    proof {
        assert(rest.deep_view() =~= fdv.skip(0));
        assert(fdv.take(0) =~= Seq::<EntryView>::empty());
        assert(append_missing(cur0, fdv.take(0)) =~= cur0);
    }
    while rest.len() > 0
        invariant
            rest@.len() <= fdv.len(),
            rest.deep_view() =~= fdv.skip(fdv.len() - rest@.len()),
            obj.deep_view() == append_missing(cur0, fdv.take(fdv.len() - rest@.len())),
        decreases rest@.len(),
    {
        let ghost j = fdv.len() - rest@.len();
        let ghost prev = obj.deep_view();
        let ghost rest_before = rest.deep_view();
        let e = rest.remove(0);
        proof {
            assert(e.deep_view() == rest_before[0]);
            assert(e.deep_view() == fdv[j]);
            assert(rest.deep_view() =~= rest_before.drop_first());
            assert(rest.deep_view() =~= fdv.skip(j + 1));
            assert(fdv.take(j + 1).drop_last() =~= fdv.take(j));
            assert(fdv.take(j + 1).last() == fdv[j]);
        }
        if !crate::node::fields_have_key(obj, e.key.as_str()) {
            obj.push(e);
            proof {
                assert(obj.deep_view() =~= prev.push(fdv[j]));
            }
        }
    }
    proof {
        assert(fdv.take(fdv.len() as int) =~= fdv);
    }
}

/// Expands the value under `key` inside an object with budget `depth`:
/// the field-walk step for one field.
fn walk_one(
    docs: &DocTable,
    key: &String,
    v: Node,
    depth: u8,
    load_context: bool,
    missing: &mut Vec<String>,
) -> (r: Node)
    requires
        depth >= 1,
    ensures
        r.deep_view() == walk_value(docs@, key@, v.deep_view(), depth as nat, load_context),
        final(missing).deep_view() == old(missing).deep_view() + value_misses(
            docs@,
            key@,
            v.deep_view(),
            depth as nat,
            load_context,
        ),
    decreases depth, 5int, 0int,
{
    let ghost t = docs@;
    let ghost v0 = v.deep_view();
    let ghost m0 = missing.deep_view();
    proof {
        crate::node::lemma_view_variants(v);
    }
    if str_eq(key.as_str(), "@id") || str_eq(key.as_str(), "@ref") {
        proof {
            assert(missing.deep_view() =~= m0 + value_misses(t, key@, v0, depth as nat,
            load_context));
        }
        return v;
    }
    if !load_context && str_eq(key.as_str(), "@context") {
        proof {
            assert(missing.deep_view() =~= m0 + value_misses(t, key@, v0, depth as nat,
            load_context));
        }
        return v;
    }
    match v {
        Node::Arr(mut elems) => {
            proof {
                crate::node::lemma_arr_view(elems);
            }
            let ghost e0 = elems.deep_view();
            scan_json_ld_array(docs, &mut elems, depth - 1, load_context, missing);
            proof {
                crate::node::lemma_arr_view(elems);
            }
            Node::Arr(elems)
        },
        Node::Obj(mut fields) => {
            proof {
                crate::node::lemma_obj_view(fields);
            }
            let ghost f0 = fields.deep_view();
            scan_json_ld_obj(docs, &mut fields, depth - 1, load_context, missing);
            proof {
                crate::node::lemma_obj_view(fields);
            }
            Node::Obj(fields)
        },
        Node::Str(s) => {
            if is_valid_url(s.as_str()) && !str_eq(key.as_str(), "@type") {
                match load_json_ld(docs, s.as_str(), depth - 1, load_context, missing) {
                    Result::Ok(fields) => {
                        proof {
                            crate::node::lemma_obj_view(fields);
                        }
                        Node::Obj(fields)
                    },
                    Result::Err(_) => Node::Str(s),
                }
            } else {
                proof {
                    assert(missing.deep_view() =~= m0 + value_misses(t, key@, v0, depth as nat,
                    load_context));
                }
                Node::Str(s)
            }
        },
        other => {
            proof {
                assert(missing.deep_view() =~= m0 + value_misses(t, key@, v0, depth as nat,
                load_context));
            }
            other
        },
    }
}

/// Expands one array element with the array's budget `depth`.
fn elem_one(
    docs: &DocTable,
    v: Node,
    depth: u8,
    load_context: bool,
    missing: &mut Vec<String>,
) -> (r: Node)
    requires
        depth >= 1,
    ensures
        r.deep_view() == elem_value(docs@, v.deep_view(), depth as nat, load_context),
        final(missing).deep_view() == old(missing).deep_view() + elem_misses(
            docs@,
            v.deep_view(),
            depth as nat,
            load_context,
        ),
    decreases depth, 5int, 0int,
{
    let ghost t = docs@;
    let ghost v0 = v.deep_view();
    let ghost m0 = missing.deep_view();
    proof {
        crate::node::lemma_view_variants(v);
    }
    match v {
        Node::Arr(mut elems) => {
            proof {
                crate::node::lemma_arr_view(elems);
            }
            scan_json_ld_array(docs, &mut elems, depth - 1, load_context, missing);
            proof {
                crate::node::lemma_arr_view(elems);
            }
            Node::Arr(elems)
        },
        Node::Obj(mut fields) => {
            proof {
                crate::node::lemma_obj_view(fields);
            }
            scan_json_ld_obj(docs, &mut fields, depth - 1, load_context, missing);
            proof {
                crate::node::lemma_obj_view(fields);
            }
            Node::Obj(fields)
        },
        Node::Str(s) => {
            if is_valid_url(s.as_str()) {
                match load_json_ld(docs, s.as_str(), depth - 1, load_context, missing) {
                    Result::Ok(fields) => {
                        proof {
                            crate::node::lemma_obj_view(fields);
                        }
                        Node::Obj(fields)
                    },
                    Result::Err(_) => Node::Str(s),
                }
            } else {
                proof {
                    assert(missing.deep_view() =~= m0 + elem_misses(t, v0, depth as nat,
                    load_context));
                }
                Node::Str(s)
            }
        },
        other => {
            proof {
                assert(missing.deep_view() =~= m0 + elem_misses(t, v0, depth as nat,
                load_context));
            }
            other
        },
    }
}

/// Expands a JSON-LD object in place, against the documents in `docs`.
///
/// With a zero budget the object is left untouched. Otherwise, if the object
/// has fewer than three fields, each identifier- or reference-keyed string
/// value is loaded and the loaded document's fields are merged in (the
/// object's own fields win); then every field other than the identifier,
/// reference and (unless `load_context`) context keys is walked: arrays and
/// objects are expanded with one budget less, and a URL-valued string under
/// a key other than the type key is replaced by the document it names, when
/// that document loads. Every URL consulted but not present in `docs` is
/// appended to `missing`; failures recorded in `docs` leave the value
/// unchanged.
pub fn scan_json_ld_obj(
    docs: &DocTable,
    obj: &mut Vec<Entry>,
    depth: u8,
    load_context: bool,
    missing: &mut Vec<String>,
)
    ensures
        final(obj).deep_view() == expand_obj_view(
            docs@,
            old(obj).deep_view(),
            depth as nat,
            load_context,
        ),
        final(missing).deep_view() == old(missing).deep_view() + obj_misses(
            docs@,
            old(obj).deep_view(),
            depth as nat,
            load_context,
        ),
    decreases depth, 8int, 0int,
{
    let ghost t = docs@;
    let ghost orig = obj.deep_view();
    let ghost m0 = missing.deep_view();
    if depth == 0 {
        proof {
            assert(missing.deep_view() =~= m0 + obj_misses(t, orig, 0, load_context));
        }
        return ;
    }
    // The reference-merge pass: only an object small enough to be a bare
    // reference is a candidate.
    if obj.len() < 3 {
        let orig_len = obj.len();
        let mut k: usize = 0;
        proof {
            assert(missing.deep_view() =~= m0 + merge_misses_upto(t, orig, 0, depth as nat,
            load_context));
        }
        while k < orig_len
            invariant
                depth >= 1,
                t == docs@,
                k <= orig_len,
                orig_len == orig.len(),
                orig.len() < 3,
                obj.deep_view() == merged_upto(t, orig, k as int, depth as nat, load_context),
                missing.deep_view() == m0 + merge_misses_upto(
                    t,
                    orig,
                    k as int,
                    depth as nat,
                    load_context,
                ),
            decreases orig_len - k,
        {
            proof {
                lemma_merged_upto_prefix(t, orig, k as int, depth as nat, load_context);
            }
            let ghost prev = obj.deep_view();
            let ghost miss_prev = missing.deep_view();
            let url_opt: Option<String> = {
                let e = &obj[k];
                proof {
                    crate::node::lemma_view_variants(e.value);
                }
                if str_eq(e.key.as_str(), "@id") || str_eq(e.key.as_str(), "@ref") {
                    match &e.value {
                        Node::Str(s) => Option::Some(s.clone()),
                        _ => Option::None,
                    }
                } else {
                    Option::None
                }
            };
            match url_opt {
                Option::Some(u) => {
                    proof {
                        assert(orig[k as int].key == id_key() || orig[k as int].key == ref_key());
                        assert(orig[k as int].value is Str);
                        assert(u@ == orig[k as int].value->Str_0);
                    }
                    match load_json_ld(docs, u.as_str(), depth - 1, load_context, missing) {
                        Result::Ok(fetched) => {
                            merge_fetched(obj, fetched);
                        },
                        Result::Err(_) => {},
                    }
                },
                Option::None => {},
            }
            k = k + 1;
            proof {
                assert(obj.deep_view() == merged_upto(t, orig, k as int, depth as nat,
                load_context));
                assert(missing.deep_view() =~= m0 + merge_misses_upto(t, orig, k as int,
                depth as nat, load_context));
            }
        }
    }
    let ghost merged = merged_fields(t, orig, depth as nat, load_context);
    let ghost pre = if orig.len() < 3 {
        merge_misses_upto(t, orig, orig.len() as int, depth as nat, load_context)
    } else {
        Seq::<Seq<char>>::empty()
    };
    proof {
        assert(obj.deep_view() == merged);
        assert(missing.deep_view() =~= m0 + pre);
    }
    // The field-walk pass, over the merged fields.
    let mut out: Vec<Entry> = Vec::new();
    proof {
        assert(obj.deep_view() =~= merged.skip(0));
        assert(merged.take(0) =~= Seq::<EntryView>::empty());
        assert(missing.deep_view() =~= m0 + pre + fields_misses(t, merged.take(0), depth as nat,
        load_context));
    }
    while obj.len() > 0
        invariant
            depth >= 1,
            t == docs@,
            out@.len() + obj@.len() == merged.len(),
            obj.deep_view() =~= merged.skip(out@.len() as int),
            forall|j: int| 0 <= j < out@.len() ==> out.deep_view()[j] == (EntryView {
                key: merged[j].key,
                value: walk_value(t, merged[j].key, merged[j].value, depth as nat, load_context),
            }),
            missing.deep_view() == m0 + pre + fields_misses(
                t,
                merged.take(out@.len() as int),
                depth as nat,
                load_context,
            ),
        decreases obj@.len(),
    {
        let ghost j = out@.len() as int;
        let ghost out_prev = out.deep_view();
        let ghost obj_before = obj.deep_view();
        let e = obj.remove(0);
        proof {
            assert(e.deep_view() == obj_before[0]);
            assert(e.deep_view() == merged[j]);
            assert(obj.deep_view() =~= obj_before.drop_first());
            assert(obj.deep_view() =~= merged.skip(j + 1));
            assert(merged.take(j + 1).drop_last() =~= merged.take(j));
            assert(merged.take(j + 1).last() == merged[j]);
        }
        let Entry { key, value } = e;
        let new_value = walk_one(docs, &key, value, depth, load_context, missing);
        out.push(Entry { key, value: new_value });
        proof {
            assert(out.deep_view() =~= out_prev.push(
                EntryView {
                    key: merged[j].key,
                    value: walk_value(t, merged[j].key, merged[j].value, depth as nat,
                    load_context),
                },
            ));
            assert(missing.deep_view() =~= m0 + pre + fields_misses(t, merged.take(j + 1),
            depth as nat, load_context));
        }
    }
    proof {
        assert(merged.take(merged.len() as int) =~= merged);
        assert(out.deep_view() =~= expand_obj_view(t, orig, depth as nat, load_context));
    }
    *obj = out;
}

/// Expands a JSON-LD array in place, against the documents in `docs`.
///
/// With a zero budget the array is left untouched. Otherwise each element is
/// expanded independently and in order — the array keeps its length — with
/// nested arrays and objects expanded with one budget less, and a URL-valued
/// string replaced by the document it names, when that document loads. URLs
/// not present in `docs` are appended to `missing`.
pub fn scan_json_ld_array(
    docs: &DocTable,
    arr: &mut Vec<Node>,
    depth: u8,
    load_context: bool,
    missing: &mut Vec<String>,
)
    ensures
        final(arr).deep_view() == expand_arr_view(
            docs@,
            old(arr).deep_view(),
            depth as nat,
            load_context,
        ),
        final(missing).deep_view() == old(missing).deep_view() + arr_misses(
            docs@,
            old(arr).deep_view(),
            depth as nat,
            load_context,
        ),
    decreases depth, 8int, 0int,
{
    let ghost t = docs@;
    let ghost orig = arr.deep_view();
    let ghost m0 = missing.deep_view();
    if depth == 0 {
        proof {
            assert(missing.deep_view() =~= m0 + arr_misses(t, orig, 0, load_context));
        }
        return ;
    }
    let mut out: Vec<Node> = Vec::new();
    proof {
        assert(arr.deep_view() =~= orig.skip(0));
        assert(orig.take(0) =~= Seq::<NodeView>::empty());
        assert(missing.deep_view() =~= m0 + elems_misses(t, orig.take(0), depth as nat,
        load_context));
    }
    while arr.len() > 0
        invariant
            depth >= 1,
            t == docs@,
            out@.len() + arr@.len() == orig.len(),
            arr.deep_view() =~= orig.skip(out@.len() as int),
            forall|j: int| 0 <= j < out@.len() ==> out.deep_view()[j] == elem_value(
                t,
                orig[j],
                depth as nat,
                load_context,
            ),
            missing.deep_view() == m0 + elems_misses(
                t,
                orig.take(out@.len() as int),
                depth as nat,
                load_context,
            ),
        decreases arr@.len(),
    {
        let ghost j = out@.len() as int;
        let ghost out_prev = out.deep_view();
        let ghost arr_before = arr.deep_view();
        let e = arr.remove(0);
        proof {
            assert(e.deep_view() == arr_before[0]);
            assert(e.deep_view() == orig[j]);
            assert(arr.deep_view() =~= arr_before.drop_first());
            assert(arr.deep_view() =~= orig.skip(j + 1));
            assert(orig.take(j + 1).drop_last() =~= orig.take(j));
            assert(orig.take(j + 1).last() == orig[j]);
        }
        let new_elem = elem_one(docs, e, depth, load_context, missing);
        out.push(new_elem);
        proof {
            assert(out.deep_view() =~= out_prev.push(elem_value(t, orig[j], depth as nat,
            load_context)));
            assert(missing.deep_view() =~= m0 + elems_misses(t, orig.take(j + 1), depth as nat,
            load_context));
        }
    }
    proof {
        assert(orig.take(orig.len() as int) =~= orig);
        assert(out.deep_view() =~= expand_arr_view(t, orig, depth as nat, load_context));
    }
    *arr = out;
}

/// Loads the document at `url` from the table and expands it: the top-level
/// entry point.
///
/// Returns the expanded fields of the document, or the hard failure: a URL
/// with no recorded outcome or a recorded transport failure is a transport
/// error, a body that is not JSON is reported with its parse diagnostic, and
/// a JSON body that is not an object is reported as such. Every URL the
/// expansion consulted but `docs` does not hold — the requested one included
/// — is appended to `missing`.
pub fn load_json_ld(
    docs: &DocTable,
    url: &str,
    depth: u8,
    load_context: bool,
    missing: &mut Vec<String>,
) -> (r: Result<Vec<Entry>, LoadError>)
    ensures
        match r {
            Result::Ok(fields) => load_view(docs@, url@, depth as nat, load_context)
                == Result::<Seq<EntryView>, LoadErrorView>::Ok(fields.deep_view()),
            Result::Err(e) => load_view(docs@, url@, depth as nat, load_context)
                == Result::<Seq<EntryView>, LoadErrorView>::Err(e.deep_view()),
        },
        final(missing).deep_view() == old(missing).deep_view() + load_misses(
            docs@,
            url@,
            depth as nat,
            load_context,
        ),
    decreases depth, 9int, 0int,
{
    let ghost t = docs@;
    let ghost m0 = missing.deep_view();
    match docs.lookup(url) {
        Option::None => {
            missing.push(url.to_owned());
            proof {
                assert(missing.deep_view() =~= m0 + load_misses(t, url@, depth as nat,
                load_context));
            }
            Result::Err(LoadError::Transport { url: url.to_owned() })
        },
        Option::Some(outcome) => match outcome {
            FetchOutcome::Transport => {
                proof {
                    assert(missing.deep_view() =~= m0 + load_misses(t, url@, depth as nat,
                    load_context));
                }
                Result::Err(LoadError::Transport { url: url.to_owned() })
            },
            FetchOutcome::NotJson(cause) => {
                proof {
                    assert(missing.deep_view() =~= m0 + load_misses(t, url@, depth as nat,
                    load_context));
                }
                Result::Err(LoadError::NotJson { url: url.to_owned(), cause: cause.clone() })
            },
            FetchOutcome::NotObject => {
                proof {
                    assert(missing.deep_view() =~= m0 + load_misses(t, url@, depth as nat,
                    load_context));
                }
                Result::Err(LoadError::NotAnObject { url: url.to_owned() })
            },
            FetchOutcome::Doc(fields) => {
                let mut owned = crate::node::clone_entries(fields);
                scan_json_ld_obj(docs, &mut owned, depth, load_context, missing);
                Result::Ok(owned)
            },
        },
    }
}

} // verus!
