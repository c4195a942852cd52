//! The resolver's general laws, each proved against the spec functions that
//! the executable functions are verified to implement.

use vstd::prelude::*;

use crate::keys::{context_key, id_key, ref_key, type_key};
use crate::node::{has_key, value_of, EntryView, NodeView};
use crate::resolve::{
    append_missing, arr_misses, elem_value, expand_arr_view, expand_obj_view,
    lemma_merged_upto_prefix, merged_fields, merged_upto, obj_misses, value_misses, walk_value,
};
use crate::table::OutcomeView;

verus! {

/// With a zero depth budget, expansion is the identity on any object, any
/// array and any field or element value, whatever documents the table holds
/// — and nothing is fetched: no URL can be missed.
pub proof fn lemma_depth_zero_identity(
    t: Map<Seq<char>, OutcomeView>,
    fields: Seq<EntryView>,
    elems: Seq<NodeView>,
    key: Seq<char>,
    v: NodeView,
    load_context: bool,
)
    ensures
        expand_obj_view(t, fields, 0, load_context) == fields,
        expand_arr_view(t, elems, 0, load_context) == elems,
        walk_value(t, key, v, 0, load_context) == v,
        elem_value(t, v, 0, load_context) == v,
        obj_misses(t, fields, 0, load_context) == Seq::<Seq<char>>::empty(),
        arr_misses(t, elems, 0, load_context) == Seq::<Seq<char>>::empty(),
{
}

/// The merge pass of an object with no identifier or reference key is a
/// no-op, processed field by field.
proof fn lemma_merged_upto_no_refs(
    t: Map<Seq<char>, OutcomeView>,
    orig: Seq<EntryView>,
    n: int,
    depth: nat,
    load_context: bool,
)
    requires
        forall|i: int|
            0 <= i < orig.len() ==> orig[i].key != id_key() && orig[i].key != ref_key(),
    ensures
        merged_upto(t, orig, n, depth, load_context) == orig,
    decreases n,
{
    if n <= 0 || depth == 0 || n > orig.len() {
    } else {
        lemma_merged_upto_no_refs(t, orig, n - 1, depth, load_context);
    }
}

/// An object that is not shaped like a reference — three or more fields, or
/// no identifier or reference key at all — is left alone by the
/// reference-merge pass: expansion is the field-walk pass and nothing else.
/// In particular the key set, order included, is exactly that of the input.
pub proof fn lemma_no_merge_for_plain_objects(
    t: Map<Seq<char>, OutcomeView>,
    fields: Seq<EntryView>,
    depth: nat,
    load_context: bool,
)
    requires
        fields.len() >= 3 || forall|i: int|
            0 <= i < fields.len() ==> fields[i].key != id_key() && fields[i].key != ref_key(),
    ensures
        merged_fields(t, fields, depth, load_context) == fields,
        depth > 0 ==> expand_obj_view(t, fields, depth, load_context).len() == fields.len(),
        depth > 0 ==> forall|i: int|
            0 <= i < fields.len() ==> expand_obj_view(t, fields, depth, load_context)[i]
                == (EntryView {
                key: fields[i].key,
                value: walk_value(t, fields[i].key, fields[i].value, depth, load_context),
            }),
{
    if fields.len() < 3 {
        lemma_merged_upto_no_refs(t, fields, fields.len() as int, depth, load_context);
    }
}

/// The field-walk pass touches only values: the expanded object has exactly
/// the merged object's keys, in the same places.
pub proof fn lemma_walk_preserves_keys(
    t: Map<Seq<char>, OutcomeView>,
    fields: Seq<EntryView>,
    depth: nat,
    load_context: bool,
)
    requires
        depth > 0,
    ensures
        expand_obj_view(t, fields, depth, load_context).len() == merged_fields(
            t,
            fields,
            depth,
            load_context,
        ).len(),
        forall|i: int|
            0 <= i < merged_fields(t, fields, depth, load_context).len()
                ==> expand_obj_view(t, fields, depth, load_context)[i].key == merged_fields(
                t,
                fields,
                depth,
                load_context,
            )[i].key,
{
}

/// The first value under key `k` is the same in `longer` as in its prefix
/// `shorter`, provided `shorter` already has `k`.
proof fn lemma_value_of_prefix(shorter: Seq<EntryView>, longer: Seq<EntryView>, k: Seq<char>)
    requires
        has_key(shorter, k),
        longer.len() >= shorter.len(),
        forall|i: int| 0 <= i < shorter.len() ==> longer[i] == shorter[i],
    ensures
        value_of(longer, k) == value_of(shorter, k),
        has_key(longer, k),
    decreases shorter.len(),
{
    let wit = choose|i: int| 0 <= i < shorter.len() && shorter[i].key == k;
    assert(longer[wit].key == k);
    if shorter[0].key == k {
    } else {
        assert(shorter.drop_first()[wit - 1].key == k);
        assert(has_key(shorter.drop_first(), k));
        assert(forall|i: int|
            0 <= i < shorter.drop_first().len() ==> longer.drop_first()[i]
                == shorter.drop_first()[i]);
        lemma_value_of_prefix(shorter.drop_first(), longer.drop_first(), k);
    }
}

/// Merge precedence: a field the object already has before the merge keeps
/// its value through the whole reference-merge pass; fetched fields never
/// overwrite it.
pub proof fn lemma_merge_precedence(
    t: Map<Seq<char>, OutcomeView>,
    fields: Seq<EntryView>,
    depth: nat,
    load_context: bool,
    k: Seq<char>,
)
    requires
        has_key(fields, k),
    ensures
        has_key(merged_fields(t, fields, depth, load_context), k),
        value_of(merged_fields(t, fields, depth, load_context), k) == value_of(fields, k),
{
    if fields.len() < 3 {
        lemma_merged_upto_prefix(t, fields, fields.len() as int, depth, load_context);
        lemma_value_of_prefix(
            fields,
            merged_upto(t, fields, fields.len() as int, depth, load_context),
            k,
        );
    }
}

/// Merge precedence at a single merge: what `cur` already holds under `k`
/// survives `append_missing` unchanged.
pub proof fn lemma_append_missing_precedence(
    cur: Seq<EntryView>,
    fetched: Seq<EntryView>,
    k: Seq<char>,
)
    requires
        has_key(cur, k),
    ensures
        has_key(append_missing(cur, fetched), k),
        value_of(append_missing(cur, fetched), k) == value_of(cur, k),
{
    crate::resolve::lemma_append_missing_prefix(cur, fetched);
    lemma_value_of_prefix(cur, append_missing(cur, fetched), k);
}

/// The merge never introduces a duplicate key: it skips every fetched field
/// whose key is already present.
proof fn lemma_append_missing_unique(cur: Seq<EntryView>, fetched: Seq<EntryView>)
    requires
        crate::node::keys_unique(cur),
    ensures
        crate::node::keys_unique(append_missing(cur, fetched)),
    decreases fetched.len(),
{
    if fetched.len() > 0 {
        lemma_append_missing_unique(cur, fetched.drop_last());
        let prev = append_missing(cur, fetched.drop_last());
        let e = fetched.last();
        if !has_key(prev, e.key) {
            assert forall|i: int, j: int|
                0 <= i < j < prev.push(e).len() implies prev.push(e)[i].key != prev.push(e)[j].key
            by {
                if j == prev.len() {
                    assert(prev.push(e)[i] == prev[i]);
                }
            }
        }
    }
}

/// The merge pass keeps the object's keys pairwise distinct.
proof fn lemma_merged_upto_unique(
    t: Map<Seq<char>, OutcomeView>,
    orig: Seq<EntryView>,
    n: int,
    depth: nat,
    load_context: bool,
)
    requires
        crate::node::keys_unique(orig),
    ensures
        crate::node::keys_unique(merged_upto(t, orig, n, depth, load_context)),
    decreases n,
{
    if n <= 0 || depth == 0 || n > orig.len() {
    } else {
        lemma_merged_upto_unique(t, orig, n - 1, depth, load_context);
        let prev = merged_upto(t, orig, n - 1, depth, load_context);
        let e = orig[n - 1];
        if (e.key == id_key() || e.key == ref_key()) && e.value is Str {
            match crate::resolve::load_view(t, e.value->Str_0, (depth - 1) as nat, load_context) {
                Result::Ok(fetched) => lemma_append_missing_unique(prev, fetched),
                Result::Err(_) => {},
            }
        }
    }
}

/// An object whose keys are pairwise distinct keeps that through expansion:
/// the merge skips keys that are already present, and the field-walk pass
/// touches only values.
pub proof fn lemma_expansion_keeps_keys_unique(
    t: Map<Seq<char>, OutcomeView>,
    fields: Seq<EntryView>,
    depth: nat,
    load_context: bool,
)
    requires
        crate::node::keys_unique(fields),
    ensures
        crate::node::keys_unique(expand_obj_view(t, fields, depth, load_context)),
{
    if depth > 0 {
        if fields.len() < 3 {
            lemma_merged_upto_unique(t, fields, fields.len() as int, depth, load_context);
        }
        let merged = merged_fields(t, fields, depth, load_context);
        let out = expand_obj_view(t, fields, depth, load_context);
        assert forall|i: int, j: int| 0 <= i < j < out.len() implies out[i].key != out[j].key by {
            assert(out[i].key == merged[i].key && out[j].key == merged[j].key);
        }
    }
}

/// Array expansion preserves length and positional order for every input:
/// each element of the result is the expansion of the element that stood in
/// that position.
pub proof fn lemma_array_expansion_shape(
    t: Map<Seq<char>, OutcomeView>,
    elems: Seq<NodeView>,
    depth: nat,
    load_context: bool,
)
    ensures
        expand_arr_view(t, elems, depth, load_context).len() == elems.len(),
        depth > 0 ==> forall|i: int|
            0 <= i < elems.len() ==> expand_arr_view(t, elems, depth, load_context)[i]
                == elem_value(t, elems[i], depth, load_context),
        depth == 0 ==> expand_arr_view(t, elems, depth, load_context) == elems,
{
}

/// A soft failure leaves the value in place: a URL-valued string whose
/// document does not load — for any reason — stays exactly as it was, in an
/// object field as in an array element.
pub proof fn lemma_soft_failure_keeps_value(
    t: Map<Seq<char>, OutcomeView>,
    key: Seq<char>,
    s: Seq<char>,
    depth: nat,
    load_context: bool,
)
    requires
        depth > 0,
        crate::resolve::load_view(t, s, (depth - 1) as nat, load_context) is Err,
    ensures
        walk_value(t, key, NodeView::Str(s), depth, load_context) == NodeView::Str(s),
        elem_value(t, NodeView::Str(s), depth, load_context) == NodeView::Str(s),
{
}

/// A string value is replaced exactly when all three conditions hold: it is
/// a syntactically valid absolute URL, its key is not the type key, and the
/// document it names loads — and then it is replaced by that document.
pub proof fn lemma_string_replacement_conditions(
    t: Map<Seq<char>, OutcomeView>,
    key: Seq<char>,
    s: Seq<char>,
    depth: nat,
    load_context: bool,
)
    requires
        depth > 0,
        key != id_key(),
        key != ref_key(),
        load_context || key != context_key(),
    ensures
        (crate::resolve::is_url_text(s) && key != type_key() && crate::resolve::load_view(
            t,
            s,
            (depth - 1) as nat,
            load_context,
        ) is Ok) ==> walk_value(t, key, NodeView::Str(s), depth, load_context) == NodeView::Obj(
            crate::resolve::load_view(t, s, (depth - 1) as nat, load_context)->Ok_0,
        ),
        !(crate::resolve::is_url_text(s) && key != type_key() && crate::resolve::load_view(
            t,
            s,
            (depth - 1) as nat,
            load_context,
        ) is Ok) ==> walk_value(t, key, NodeView::Str(s), depth, load_context) == NodeView::Str(s),
{
}

/// The type key's value is never treated as a followable reference, even
/// when it is a syntactically valid URL string: the field-walk pass leaves
/// it exactly as it stands, and fetches nothing for it.
pub proof fn lemma_type_key_not_followed(
    t: Map<Seq<char>, OutcomeView>,
    v: NodeView,
    depth: nat,
    load_context: bool,
)
    requires
        v is Str,
    ensures
        walk_value(t, type_key(), v, depth, load_context) == v,
        value_misses(t, type_key(), v, depth, load_context) == Seq::<Seq<char>>::empty(),
{
}

/// With contexts excluded, the context key's value — whatever its shape —
/// passes through completely untouched, nested URL strings included, and
/// nothing is fetched for it.
pub proof fn lemma_context_excluded(
    t: Map<Seq<char>, OutcomeView>,
    v: NodeView,
    depth: nat,
)
    ensures
        walk_value(t, context_key(), v, depth, false) == v,
        value_misses(t, context_key(), v, depth, false) == Seq::<Seq<char>>::empty(),
{
}

} // verus!
