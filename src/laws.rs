//! Properties of schemas that relate several operations.
use vstd::prelude::*;
use crate::definition::{
    declared_fields,    field_allowed, merge_model, merged_meanings, optional_field_model, or_null_kind, path_known,
    with_field_model, Definition, DefinitionModel,
};
use crate::kind::{
    array_kind, coalesced_from, collection_merge, empty_collection, inserted, kind_merge, kind_wf,
    known_at, known_get, known_merge, known_set, known_wf, merge_into, never_kind, object_kind,
    segment_key, shape_merge, shape_wf, Collection, Key, Kind, Known, Unknown,
};
use crate::meaning::{merge_pointers_idempotent, PointerModel};
use crate::path::{FieldPath, PathModel, Segment};

verus! {

/// Every entry of `b` is an entry of `a` that merging with itself leaves as it is.
spec fn absorbed(a: Known, b: Known) -> bool
    decreases b,
{
    match b {
        Known::Nil => true,
        Known::Entry(k, v, r) => known_get(a, k@) == Some(*v) && kind_merge(*v, *v) == *v
            && absorbed(a, *r),
    }
}

proof fn lemma_merge_into_same(a: Known, k: Key, v: Kind)
    requires
        known_get(a, k@) == Some(v),
        kind_merge(v, v) == v,
    ensures
        merge_into(a, k, v) == a,
    decreases a,
{
    match a {
        Known::Nil => {},
        Known::Entry(k2, v2, r2) => {
            if k2@ != k@ {
                lemma_merge_into_same(*r2, k, v);
            }
        },
    }
}

proof fn lemma_absorb(a: Known, b: Known)
    requires
        absorbed(a, b),
    ensures
        known_merge(a, b) == a,
    decreases b,
{
    match b {
        Known::Nil => {},
        Known::Entry(k, v, r) => {
            lemma_merge_into_same(a, k, *v);
            lemma_absorb(a, *r);
        },
    }
}

proof fn lemma_absorbed_extend(k: Key, v: Box<Kind>, r: Known, b: Known)
    requires
        absorbed(r, b),
        known_get(r, k@) is None,
    ensures
        absorbed(Known::Entry(k, v, Box::new(r)), b),
    decreases b,
{
    match b {
        Known::Nil => {},
        Known::Entry(k2, v2, r2) => {
            lemma_absorbed_extend(k, v, r, *r2);
        },
    }
}

proof fn lemma_known_self(l: Known)
    requires
        known_wf(l),
    ensures
        absorbed(l, l),
    decreases l,
{
    match l {
        Known::Nil => {},
        Known::Entry(k, v, r) => {
            lemma_kind_idempotent(*v);
            lemma_known_self(*r);
            lemma_absorbed_extend(k, v, *r, *r);
        },
    }
}

proof fn lemma_shape_idempotent(o: Option<Collection>)
    requires
        shape_wf(o),
    ensures
        shape_merge(o, o) == o,
    decreases o,
{
    match o {
        None => {},
        Some(c) => {
            lemma_known_self(c.known);
            lemma_absorb(c.known, c.known);
            match c.unknown {
                Some(Unknown::Of(u)) => {
                    lemma_kind_idempotent(*u);
                },
                _ => {},
            }
            assert(collection_merge(c, c) == c);
        },
    }
}

/// The union of a well-formed type with itself is that type.
pub proof fn lemma_kind_idempotent(k: Kind)
    requires
        kind_wf(k),
    ensures
        kind_merge(k, k) == k,
    decreases k,
{
    lemma_shape_idempotent(k.object);
    lemma_shape_idempotent(k.array);
}

/// Merging a schema with an identical copy of itself gives the same schema.
pub proof fn merge_with_itself(d: &Definition)
    requires
        d.wf(),
    ensures
        merge_model(d@, d@) == d@,
{
    d.lemma_wf_kind();
    let d = d@;
    lemma_kind_idempotent(d.kind);
    assert forall|k: Seq<char>| d.meanings.contains_key(k) implies merged_meanings(
        d.meanings,
        d.meanings,
    )[k] == d.meanings[k] by {
        merge_pointers_idempotent(d.meanings[k]);
    }
    assert(merged_meanings(d.meanings, d.meanings) =~= d.meanings);
}

proof fn lemma_set_then_get(l: Known, k: Key, v: Kind)
    ensures
        known_get(known_set(l, k, v), k@) == Some(v),
    decreases l,
{
    match l {
        Known::Nil => {},
        Known::Entry(k2, v2, r) => {
            if k2@ != k@ {
                lemma_set_then_get(*r, k, v);
            }
        },
    }
}

/// After storing `t` at a path, following that path finds `t`.
pub proof fn lemma_inserted_found(k: Kind, path: Seq<Segment>, i: int, t: Kind)
    requires
        0 <= i <= path.len(),
        !coalesced_from(path, i),
    ensures
        known_at(inserted(k, path, i, t), path, i) == Some(t),
    decreases path.len() - i,
{
    if i < path.len() {
        assert(!(path[i] is Coalesce));
        assert(!coalesced_from(path, i + 1));
        let key = segment_key(path[i]);
        let base = match path[i] {
            Segment::Field(_) => if k.object is Some { k } else { object_kind(empty_collection()) },
            _ => if k.array is Some { k } else { array_kind(empty_collection()) },
        };
        let c = match path[i] {
            Segment::Field(_) => base.object->0,
            _ => base.array->0,
        };
        let child = match known_get(c.known, key@) {
            Some(v) => v,
            None => never_kind(),
        };
        lemma_inserted_found(child, path, i + 1, t);
        lemma_set_then_get(c.known, key, inserted(child, path, i + 1, t));
    }
}

/// Adding a field with a meaning to a schema whose type is an object: the
/// type then holds the field's type at its path, and the meaning points at
/// exactly that path.
pub proof fn with_field_is_found(d: DefinitionModel, p: FieldPath, t: Kind, m: Seq<char>)
    requires
        field_allowed(d, p),
    ensures
        known_at(with_field_model(d, p, t, Some(m)).kind, p.segments@, 0) == Some(t),
        with_field_model(d, p, t, Some(m)).meanings.contains_key(m),
        with_field_model(d, p, t, Some(m)).meanings[m] == PointerModel::Valid(p@),
{
    let base = if p@.len() == 0 { d.kind } else { object_kind(declared_fields(d.kind)) };
    lemma_inserted_found(base, p.segments@, 0, t);
}

/// A meaning bound to the same path on both sides stays bound to that path.
pub proof fn merge_same_binding(a: DefinitionModel, b: DefinitionModel, m: Seq<char>, p: PathModel)
    requires
        a.meanings.contains_key(m),
        b.meanings.contains_key(m),
        a.meanings[m] == PointerModel::Valid(p),
        b.meanings[m] == PointerModel::Valid(p),
    ensures
        merge_model(a, b).meanings[m] == PointerModel::Valid(p),
{
}

/// A meaning bound to two different paths becomes ambiguous over exactly those two.
pub proof fn merge_conflicting_bindings(
    a: DefinitionModel,
    b: DefinitionModel,
    m: Seq<char>,
    p: PathModel,
    q: PathModel,
)
    requires
        a.meanings.contains_key(m),
        b.meanings.contains_key(m),
        a.meanings[m] == PointerModel::Valid(p),
        b.meanings[m] == PointerModel::Valid(q),
        p != q,
    ensures
        merge_model(a, b).meanings[m] == PointerModel::Invalid(set![p, q]),
        set![p, q].len() == 2,
{
    assert(set![p, q] =~= set![p].insert(q));
}

/// A single binding merged with an ambiguous one joins its set of paths.
pub proof fn merge_binding_into_ambiguity(
    a: DefinitionModel,
    b: DefinitionModel,
    m: Seq<char>,
    p: PathModel,
    q: PathModel,
    r: PathModel,
)
    requires
        a.meanings.contains_key(m),
        b.meanings.contains_key(m),
        a.meanings[m] == PointerModel::Valid(p),
        b.meanings[m] == PointerModel::Invalid(set![q, r]),
    ensures
        merge_model(a, b).meanings[m] == PointerModel::Invalid(set![p, q, r]),
{
    assert(set![p].union(set![q, r]) =~= set![p, q, r]);
}

/// An optional field is a field whose type also admits null.
pub proof fn optional_field_admits_null(
    d: DefinitionModel,
    p: FieldPath,
    t: Kind,
    m: Option<Seq<char>>,
)
    ensures
        optional_field_model(d, p, t, m).kind == with_field_model(d, p, or_null_kind(t), m).kind,
        optional_field_model(d, p, t, m) == with_field_model(d, p, or_null_kind(t), m),
{
}

/// A field away from the root cannot be added to a type without an object
/// shape (a scalar root): `with_field` does not accept such a call.
pub proof fn scalar_root_refuses_fields(d: DefinitionModel, p: FieldPath)
    requires
        d.kind.object is None,
        p@.len() > 0,
    ensures
        !field_allowed(d, p),
{
}

/// A path that starts with a field the object shape does not declare is not a
/// known location: `with_known_meaning` does not accept it.
pub proof fn absent_field_is_unknown(d: DefinitionModel, p: FieldPath)
    requires
        p.segments@.len() >= 1,
        p.segments@[0] is Field,
        d.kind.object is None || known_get(
            d.kind.object->0.known,
            segment_key(p.segments@[0])@,
        ) is None,
    ensures
        !path_known(d, p),
{
}

} // verus!
