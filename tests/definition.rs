use schema_definition::definition::Definition;
use schema_definition::kind::{Collection, Key, Kind, Known, Unknown};
use schema_definition::meaning::MeaningPointer;
use schema_definition::namespace::{LogNamespace, NamespaceSet};
use schema_definition::path::{FieldPath, Segment};

fn field(name: &str) -> FieldPath {
    FieldPath::field(name)
}

fn object_of(fields: Vec<(&str, Kind)>) -> Kind {
    let mut c = Collection::empty();
    for (name, kind) in fields.into_iter().rev() {
        c = c.with_known(Key::Field(name.to_string()), kind);
    }
    Kind::object(c)
}

fn ns(items: &[LogNamespace]) -> NamespaceSet {
    NamespaceSet::from_slice(items)
}

fn paths_of(v: &Vec<FieldPath>) -> Vec<FieldPath> {
    let mut out = v.clone();
    out.sort();
    out
}

fn sorted(mut v: Vec<FieldPath>) -> Vec<FieldPath> {
    v.sort();
    v
}

fn invalid(paths: Vec<FieldPath>) -> MeaningPointer {
    MeaningPointer::Invalid(paths)
}

fn same_pointer(a: &MeaningPointer, b: &MeaningPointer) -> bool {
    match (a, b) {
        (MeaningPointer::Valid(p), MeaningPointer::Valid(q)) => p == q,
        (MeaningPointer::Invalid(s), MeaningPointer::Invalid(t)) => {
            let mut s = s.clone();
            let mut t = t.clone();
            s.sort();
            s.dedup();
            t.sort();
            t.dedup();
            s == t
        }
        _ => false,
    }
}

#[test]
fn with_field_on_empty_object_scenario() {
    let def = Definition::empty_kind(object_of(vec![]), ns(&[LogNamespace::Legacy]))
        .with_field(field("foo"), Kind::boolean(), Some("is_foo"));
    assert_eq!(def.kind(), &object_of(vec![("foo", Kind::boolean())]));
    assert_eq!(def.meaning_path("is_foo"), Some(&field("foo")));
    assert!(def.log_namespaces().contains(LogNamespace::Legacy));
    assert!(!def.log_namespaces().contains(LogNamespace::Vector));
}

#[test]
fn merge_conflicting_meaning_scenario() {
    let def1 = Definition::empty_kind(object_of(vec![]), ns(&[]))
        .with_field(field("a"), Kind::bytes(), Some("x"));
    let def2 = Definition::empty_kind(object_of(vec![]), ns(&[]))
        .with_field(field("b"), Kind::bytes(), Some("x"));
    let merged = def1.merge(def2);
    assert_eq!(
        merged.kind(),
        &object_of(vec![("a", Kind::bytes()), ("b", Kind::bytes())])
    );
    assert_eq!(merged.meaning_path("x"), None);
    let set = merged.invalid_meaning("x").expect("ambiguous meaning");
    assert_eq!(paths_of(set), sorted(vec![field("a"), field("b")]));
}

#[test]
fn pointer_merge_same_path_stays_valid() {
    let r = MeaningPointer::Valid(field("p")).merge(MeaningPointer::Valid(field("p")));
    assert_eq!(r, MeaningPointer::Valid(field("p")));
}

#[test]
fn pointer_merge_different_paths_is_invalid() {
    let r = MeaningPointer::Valid(field("p")).merge(MeaningPointer::Valid(field("q")));
    assert!(same_pointer(&r, &invalid(vec![field("p"), field("q")])));
}

#[test]
fn pointer_merge_valid_into_invalid() {
    let r = MeaningPointer::Valid(field("p"))
        .merge(invalid(vec![field("q"), field("r")]));
    assert!(same_pointer(&r, &invalid(vec![field("p"), field("q"), field("r")])));
    let r = invalid(vec![field("q"), field("r")]).merge(MeaningPointer::Valid(field("q")));
    assert!(same_pointer(&r, &invalid(vec![field("q"), field("r")])));
    let r = invalid(vec![field("q"), field("r")]).merge(invalid(vec![field("r"), field("s")]));
    assert!(same_pointer(&r, &invalid(vec![field("q"), field("r"), field("s")])));
}

#[test]
fn pointer_merge_commutes_and_associates() {
    let cases = vec![
        MeaningPointer::Valid(field("a")),
        MeaningPointer::Valid(field("b")),
        invalid(vec![field("a"), field("c")]),
        invalid(vec![field("b"), field("d")]),
    ];
    for x in &cases {
        for y in &cases {
            let l = x.clone().merge(y.clone());
            let r = y.clone().merge(x.clone());
            assert!(same_pointer(&l, &r));
            for z in &cases {
                let l = x.clone().merge(y.clone()).merge(z.clone());
                let r = x.clone().merge(y.clone().merge(z.clone()));
                assert!(same_pointer(&l, &r));
            }
        }
    }
}

fn sample() -> Definition {
    Definition::empty_kind(object_of(vec![]), ns(&[LogNamespace::Vector]))
        .with_field(field("foo"), Kind::boolean(), Some("foo_meaning"))
        .optional_field(
            FieldPath::field("bar").push(Segment::Index(1)),
            Kind::integer(),
            Some("bar_meaning"),
        )
}

#[test]
fn merge_with_identical_copy_is_unchanged() {
    let merged = sample().merge(sample());
    assert_eq!(merged, sample());
}

#[test]
fn with_field_nested_path_is_found() {
    let path = FieldPath::field("a").push(Segment::Field("b".to_string()));
    let def = Definition::empty_kind(object_of(vec![]), ns(&[]))
        .with_field(path.clone(), Kind::timestamp(), Some("ts"));
    assert_eq!(def.kind().find_known_at_path(&path), Some(&Kind::timestamp()));
    assert_eq!(def.meaning_path("ts"), Some(&path));
    assert!(def.knows_path(&field("a")));
    assert_eq!(
        def.kind(),
        &object_of(vec![("a", object_of(vec![("b", Kind::timestamp())]))])
    );
}

#[test]
fn with_field_replaces_existing_type() {
    let def = Definition::empty_kind(object_of(vec![("a", Kind::integer())]), ns(&[]))
        .with_field(FieldPath::field("a").push(Segment::Field("b".to_string())), Kind::bytes(), None);
    assert_eq!(
        def.kind(),
        &object_of(vec![("a", object_of(vec![("b", Kind::bytes())]))])
    );
    let def = def.with_field(field("a"), Kind::null(), None);
    assert_eq!(def.kind(), &object_of(vec![("a", Kind::null())]));
}

#[test]
fn with_field_at_root_replaces_type() {
    let def = Definition::empty_kind(Kind::boolean(), ns(&[]))
        .with_field(FieldPath::root(), Kind::integer(), Some("whole"));
    assert_eq!(def.kind(), &Kind::integer());
    assert_eq!(def.meaning_path("whole"), Some(&FieldPath::root()));
}

#[test]
fn optional_field_matches_nullable_field() {
    let a = Definition::empty_kind(object_of(vec![]), ns(&[]))
        .optional_field(field("f"), Kind::bytes(), Some("m"));
    let b = Definition::empty_kind(object_of(vec![]), ns(&[]))
        .with_field(field("f"), Kind::bytes().or_null(), Some("m"));
    assert_eq!(a, b);
    let mut want = Kind::bytes();
    want.null = true;
    assert_eq!(a.kind().find_known_at_path(&field("f")), Some(&want));
}

#[test]
fn scalar_root_refuses_non_root_field() {
    let def = Definition::empty_kind(Kind::boolean(), ns(&[]));
    assert!(!def.accepts_field(&field("foo")));
    assert!(def.accepts_field(&FieldPath::root()));
    let obj = Definition::empty_kind(object_of(vec![]), ns(&[]));
    assert!(obj.accepts_field(&field("foo")));
}

#[test]
fn coalesced_path_is_refused() {
    let path = FieldPath::from_segments(vec![Segment::Coalesce(vec![
        "a".to_string(),
        "b".to_string(),
    ])]);
    assert!(path.is_coalesced());
    let def = Definition::empty_kind(object_of(vec![]), ns(&[]));
    assert!(!def.accepts_field(&path));
    assert!(object_of(vec![]).insert_at_path(&path, Kind::bytes()).is_err());
}

#[test]
fn known_meaning_needs_known_path() {
    let def = Definition::empty_kind(object_of(vec![("foo", Kind::boolean())]), ns(&[]));
    assert!(!def.knows_path(&field("bar")));
    assert!(def.knows_path(&field("foo")));
    let def = def.with_known_meaning(field("foo"), "foo_meaning");
    assert_eq!(def.meaning_path("foo_meaning"), Some(&field("foo")));
    let any = Definition::any();
    assert!(!any.knows_path(&field("foo")));
}

#[test]
fn registration_resets_ambiguous_meaning() {
    let def1 = Definition::empty_kind(object_of(vec![]), ns(&[]))
        .with_field(field("a"), Kind::bytes(), Some("x"));
    let def2 = Definition::empty_kind(object_of(vec![]), ns(&[]))
        .with_field(field("b"), Kind::bytes(), Some("x"));
    let merged = def1.merge(def2);
    assert!(merged.invalid_meaning("x").is_some());
    let fixed = merged.with_known_meaning(field("b"), "x");
    assert_eq!(fixed.meaning_path("x"), Some(&field("b")));
    assert_eq!(fixed.invalid_meaning("x"), None);
}

#[test]
fn meanings_lists_only_resolved() {
    let def1 = Definition::empty_kind(object_of(vec![]), ns(&[]))
        .with_field(field("a"), Kind::bytes(), Some("x"))
        .with_field(field("c"), Kind::bytes(), Some("y"));
    let def2 = Definition::empty_kind(object_of(vec![]), ns(&[]))
        .with_field(field("b"), Kind::bytes(), Some("x"));
    let merged = def1.merge(def2);
    let listed: Vec<(String, FieldPath)> = merged
        .meanings()
        .into_iter()
        .map(|(k, p)| (k.clone(), p.clone()))
        .collect();
    assert_eq!(listed, vec![("y".to_string(), field("c"))]);
    assert_eq!(merged.meaning_path("absent"), None);
    assert_eq!(merged.invalid_meaning("absent"), None);
}

#[test]
fn default_for_namespace_cases() {
    let none = Definition::default_for_namespace(&ns(&[]));
    assert_eq!(none.kind(), &Kind::any());
    assert_eq!(none.log_namespaces(), &ns(&[]));

    let legacy = Definition::default_for_namespace(&ns(&[LogNamespace::Legacy]));
    assert_eq!(legacy, Definition::legacy_default());
    assert_eq!(legacy.kind(), &Kind::any_object());

    let vector = Definition::default_for_namespace(&ns(&[LogNamespace::Vector]));
    assert_eq!(vector.kind(), &Kind::any());
    assert_eq!(vector.log_namespaces(), &ns(&[LogNamespace::Vector]));

    let both = Definition::default_for_namespace(&ns(&[LogNamespace::Vector, LogNamespace::Legacy]));
    assert_eq!(both, Definition::any());
    assert_eq!(both.log_namespaces(), &ns(&[LogNamespace::Legacy, LogNamespace::Vector]));
}

#[test]
fn any_admits_every_field() {
    let def = Definition::any();
    assert_eq!(def.kind().object.as_ref().unwrap().unknown, Some(Unknown::Any));
    assert_eq!(def.kind().array.as_ref().unwrap().unknown, Some(Unknown::Any));
    assert!(def.kind().bytes && def.kind().null && def.kind().undefined);
    let legacy = Definition::legacy_default();
    assert_eq!(legacy.kind().object.as_ref().unwrap().unknown, Some(Unknown::Any));
    assert!(!legacy.kind().bytes);
    let open = Kind::object(Collection::any()).merge(Kind::object(
        Collection::empty().set_unknown(Some(Kind::integer())),
    ));
    assert_eq!(open.object.as_ref().unwrap().unknown, Some(Unknown::Any));
}

#[test]
fn test_required_field() {
    let path = field("foo");
    let kind = Kind::boolean();
    let meaning = Some("foo_meaning");
    let want = Definition::empty_kind(object_of(vec![("foo", Kind::boolean())]), ns(&[]))
        .with_known_meaning(field("foo"), "foo_meaning");

    let mut got = Definition::empty_kind(Kind::any_object(), ns(&[]));
    got = got.with_field(path, kind, meaning);

    assert_eq!(got, want, "{}", "simple");
}

#[test]
fn with_field_narrows_any_to_object() {
    let def = Definition::any().with_field(field("foo"), Kind::integer(), None);
    assert!(!def.kind().bytes);
    assert!(def.kind().array.is_none());
    assert_eq!(def.kind().find_known_at_path(&field("foo")), Some(&Kind::integer()));
}

#[test]
fn empty_is_closed_object() {
    let def = Definition::empty();
    assert_eq!(def.kind(), &object_of(vec![]));
    assert_eq!(def.log_namespaces(), &ns(&[]));
}

#[test]
fn unknown_fields_sets_object_and_array() {
    let def = Definition::any().unknown_fields(Some(Kind::boolean()));
    let k = def.kind();
    assert_eq!(k.object.as_ref().unwrap().unknown, Some(Unknown::Of(Box::new(Kind::boolean()))));
    assert_eq!(k.array.as_ref().unwrap().unknown, Some(Unknown::Of(Box::new(Kind::boolean()))));
    let def = def.unknown_fields(Some(Kind::bytes().merge(Kind::integer())));
    let want = Kind::bytes().merge(Kind::integer());
    assert_eq!(def.kind().object.as_ref().unwrap().unknown, Some(Unknown::Of(Box::new(want))));
    let def = def.unknown_fields(None);
    assert_eq!(def.kind().array.as_ref().unwrap().unknown, None);
    let scalar = Definition::empty_kind(Kind::bytes(), ns(&[])).unknown_fields(Some(Kind::null()));
    assert_eq!(scalar.kind(), &Kind::bytes());
}

#[test]
fn merge_keeps_array_indices_of_both_sides() {
    let a = Definition::empty_kind(object_of(vec![]), ns(&[]))
        .with_field(FieldPath::field("list").push(Segment::Index(0)), Kind::bytes(), None);
    let b = Definition::empty_kind(object_of(vec![]), ns(&[]))
        .with_field(FieldPath::field("list").push(Segment::Index(2)), Kind::integer(), None)
        .with_field(FieldPath::field("list").push(Segment::Index(0)), Kind::null(), None);
    let merged = a.merge(b);
    let at0 = FieldPath::field("list").push(Segment::Index(0));
    let at2 = FieldPath::field("list").push(Segment::Index(2));
    assert_eq!(
        merged.kind().find_known_at_path(&at0),
        Some(&Kind::bytes().or_null())
    );
    assert_eq!(merged.kind().find_known_at_path(&at2), Some(&Kind::integer()));
    assert!(!merged.knows_path(&FieldPath::field("list").push(Segment::Index(1))));
}

#[test]
fn merge_unions_required_and_optional() {
    let a = Definition::empty_kind(object_of(vec![]), ns(&[]))
        .optional_field(field("foo"), Kind::boolean(), None);
    let b = Definition::empty_kind(object_of(vec![]), ns(&[]))
        .with_field(field("foo"), Kind::boolean(), None);
    let merged = a.merge(b);
    assert_eq!(
        merged.kind(),
        &object_of(vec![("foo", Kind::boolean().or_null())])
    );
}

#[test]
fn merge_keeps_own_namespaces() {
    let a = Definition::empty_kind(object_of(vec![]), ns(&[LogNamespace::Legacy]));
    let b = Definition::empty_kind(object_of(vec![]), ns(&[LogNamespace::Vector]));
    let merged = a.merge(b);
    assert_eq!(merged.log_namespaces(), &ns(&[LogNamespace::Legacy]));
}

#[test]
fn kind_merge_of_scalars_and_any() {
    let k = Kind::bytes().merge(Kind::integer());
    assert!(k.bytes && k.integer && !k.boolean);
    assert_eq!(Kind::any().merge(Kind::any()), Kind::any());
    let nested = object_of(vec![("x", object_of(vec![("y", Kind::regex())]))]);
    assert_eq!(
        object_of(vec![("x", object_of(vec![("y", Kind::regex())]))]).merge(nested),
        object_of(vec![("x", object_of(vec![("y", Kind::regex())]))])
    );
}

#[test]
fn path_equality_and_shape() {
    let p = FieldPath::field("a").push(Segment::Index(3));
    let q = FieldPath::from_segments(vec![Segment::Field("a".to_string()), Segment::Index(3)]);
    assert!(p.same_as(&q));
    assert!(!p.same_as(&field("a")));
    assert_eq!(p.len(), 2);
    assert!(FieldPath::root().is_root());
    assert!(!p.is_root());
    let mut known = Known::Nil;
    known = known.set(Key::Field("k".to_string()), Kind::float());
    known = known.set(Key::Field("k".to_string()), Kind::regex());
    assert_eq!(known.get(&Key::Field("k".to_string())), Some(&Kind::regex()));
    assert_eq!(known.get(&Key::Index(0)), None);
}

#[test]
fn merge_same_meaning_same_path_stays_resolved() {
    let a = Definition::empty_kind(object_of(vec![]), ns(&[]))
        .with_field(field("msg"), Kind::bytes(), Some("message"));
    let b = Definition::empty_kind(object_of(vec![]), ns(&[]))
        .with_field(field("msg"), Kind::bytes().or_null(), Some("message"));
    let merged = a.merge(b);
    assert_eq!(merged.meaning_path("message"), Some(&field("msg")));
    assert_eq!(merged.invalid_meaning("message"), None);
    assert_eq!(
        merged.kind().find_known_at_path(&field("msg")),
        Some(&Kind::bytes().or_null())
    );
}

#[test]
fn merge_resolved_into_ambiguous_meaning() {
    let q = Definition::empty_kind(object_of(vec![]), ns(&[]))
        .with_field(field("q"), Kind::bytes(), Some("m"));
    let r = Definition::empty_kind(object_of(vec![]), ns(&[]))
        .with_field(field("r"), Kind::bytes(), Some("m"));
    let ambiguous = q.merge(r);
    let p = Definition::empty_kind(object_of(vec![]), ns(&[]))
        .with_field(field("p"), Kind::bytes(), Some("m"));
    let merged = p.merge(ambiguous);
    assert_eq!(merged.meaning_path("m"), None);
    let set = merged.invalid_meaning("m").expect("ambiguous meaning");
    assert_eq!(paths_of(set), sorted(vec![field("p"), field("q"), field("r")]));
}
