//! The schema of the events a component emits: a structural type, named
//! meanings that point into it, and the log namespaces it is valid for.
use vstd::prelude::*;
use crate::kind::{
    any_kind, coalesced_from, empty_collection, inserted, kind_merge, kind_wf, known_at, known_wf,
    lemma_inserted_wf, lemma_kind_merge_wf, object_kind, shape_wf, unknown_of, Collection, Kind,
    Known, Unknown,
};
use crate::meaning::{
    merge_pointers, merge_pointers_wf, paths_distinct, paths_set, pointer_distinct, pointer_wf,
    MeaningPointer, PointerModel,
};
use crate::namespace::{LogNamespace, NamespaceSet};
use crate::path::FieldPath;

verus! {

/// Meaning names and their pointers; each name occurs once.
#[derive(Debug, PartialEq)]
pub enum Meanings {
    Nil,
    Entry(String, MeaningPointer, Box<Meanings>),
}

/// The map from meaning name to pointer that a list of meanings holds.
pub open spec fn meanings_map(l: Meanings) -> Map<Seq<char>, PointerModel>
    decreases l,
{
    match l {
        Meanings::Nil => Map::empty(),
        Meanings::Entry(k, p, r) => meanings_map(*r).insert(k@, p@),
    }
}

/// Each name occurs at most once, and each ambiguous pointer names at least
/// two paths.
pub open spec fn meanings_wf(l: Meanings) -> bool
    decreases l,
{
    match l {
        Meanings::Nil => true,
        Meanings::Entry(k, p, r) => !meanings_map(*r).contains_key(k@) && pointer_wf(p@)
            && pointer_distinct(p) && meanings_wf(*r),
    }
}

proof fn lemma_pointers_wf(l: Meanings)
    requires
        meanings_wf(l),
    ensures
        forall|k: Seq<char>| #[trigger]
            meanings_map(l).contains_key(k) ==> pointer_wf(meanings_map(l)[k]),
    decreases l,
{
    match l {
        Meanings::Nil => {},
        Meanings::Entry(_, _, r) => {
            lemma_pointers_wf(*r);
        },
    }
}

/// The meanings of two schemas combined: a name of one side keeps its
/// pointer, a name of both sides gets the merge of the two pointers.
pub open spec fn merged_meanings(
    a: Map<Seq<char>, PointerModel>,
    b: Map<Seq<char>, PointerModel>,
) -> Map<Seq<char>, PointerModel> {
    Map::new(
        |k: Seq<char>| a.contains_key(k) || b.contains_key(k),
        |k: Seq<char>|
            if a.contains_key(k) && b.contains_key(k) {
                merge_pointers(a[k], b[k])
            } else if a.contains_key(k) {
                a[k]
            } else {
                b[k]
            },
    )
}

/// Sets the pointer of `k`, replacing the one it had.
fn set_meaning(l: Meanings, k: String, p: MeaningPointer) -> (r: Meanings)
    requires
        meanings_wf(l),
        pointer_wf(p@),
        pointer_distinct(p),
    ensures
        meanings_wf(r),
        meanings_map(r) == meanings_map(l).insert(k@, p@),
    decreases l,
{
    match l {
        Meanings::Nil => {
            let r = Meanings::Entry(k, p, Box::new(Meanings::Nil));
            assert(meanings_map(r) =~= meanings_map(l).insert(k@, p@));
            r
        },
        Meanings::Entry(k2, p2, rest) => {
            if k2 == k {
                let r = Meanings::Entry(k2, p, rest);
                assert(meanings_map(r) =~= meanings_map(l).insert(k@, p@));
                r
            } else {
                let ghost kv = k@;
                let ghost pv = p@;
                let rest2 = set_meaning(*rest, k, p);
                let r = Meanings::Entry(k2, p2, Box::new(rest2));
                assert(meanings_map(r) =~= meanings_map(l).insert(kv, pv));
                r
            }
        },
    }
}

/// Merges the pointer `p` into the one of `k`, or adds `k` with `p`.
fn merge_meaning(l: Meanings, k: String, p: MeaningPointer) -> (r: Meanings)
    requires
        meanings_wf(l),
        pointer_wf(p@),
        pointer_distinct(p),
    ensures
        meanings_wf(r),
        meanings_map(r) == meanings_map(l).insert(
            k@,
            if meanings_map(l).contains_key(k@) {
                merge_pointers(meanings_map(l)[k@], p@)
            } else {
                p@
            },
        ),
    decreases l,
{
    let ghost m = meanings_map(l);
    let ghost kv = k@;
    let ghost pv = p@;
    let ghost want = if m.contains_key(kv) { merge_pointers(m[kv], pv) } else { pv };
    match l {
        Meanings::Nil => {
            let r = Meanings::Entry(k, p, Box::new(Meanings::Nil));
            assert(meanings_map(r) =~= m.insert(kv, want));
            r
        },
        Meanings::Entry(k2, p2, rest) => {
            if k2 == k {
                proof {
                    merge_pointers_wf(p2@, pv);
                }
                let r = Meanings::Entry(k2, p2.merge(p), rest);
                assert(meanings_map(r) =~= m.insert(kv, want));
                r
            } else {
                let rest2 = merge_meaning(*rest, k, p);
                let r = Meanings::Entry(k2, p2, Box::new(rest2));
                assert(meanings_map(r) =~= m.insert(kv, want));
                r
            }
        },
    }
}

/// Merges every meaning of `b` into `a`.
fn merge_all_meanings(a: Meanings, b: Meanings) -> (r: Meanings)
    requires
        meanings_wf(a),
        meanings_wf(b),
    ensures
        meanings_wf(r),
        meanings_map(r) == merged_meanings(meanings_map(a), meanings_map(b)),
    decreases b,
{
    match b {
        Meanings::Nil => {
            assert(meanings_map(a) =~= merged_meanings(meanings_map(a), meanings_map(b)));
            a
        },
        Meanings::Entry(k, p, rest) => {
            let ghost ma = meanings_map(a);
            let ghost mr = meanings_map(*rest);
            let ghost kv = k@;
            let ghost pv = p@;
            let a2 = merge_meaning(a, k, p);
            let r = merge_all_meanings(a2, *rest);
            assert(meanings_map(r) =~= merged_meanings(ma, mr.insert(kv, pv)));
            r
        },
    }
}

/// The mathematical value of a schema.
pub ghost struct DefinitionModel {
    pub kind: Kind,
    pub meanings: Map<Seq<char>, PointerModel>,
    pub namespaces: Set<LogNamespace>,
}

/// The schema of the events a component emits.
#[derive(Debug, PartialEq)]
pub struct Definition {
    kind: Kind,
    meaning: Meanings,
    log_namespaces: NamespaceSet,
}

impl View for Definition {
    type V = DefinitionModel;

    closed spec fn view(&self) -> DefinitionModel {
        DefinitionModel {
            kind: self.kind,
            meanings: meanings_map(self.meaning),
            namespaces: self.log_namespaces@,
        }
    }
}

/// May a field be added at `path`? Away from the root the type must have an
/// object shape, and no segment may hold alternatives.
pub open spec fn field_allowed(d: DefinitionModel, path: FieldPath) -> bool {
    (path@.len() == 0 || d.kind.object is Some) && !coalesced_from(path.segments@, 0)
}

/// The declared fields of the object shape of `k`, with no other field
/// allowed.
pub open spec fn declared_fields(k: Kind) -> Collection {
    Collection { known: k.object->0.known, unknown: None }
}

/// The type a schema has after a field of type `t` is added at `path`. Away
/// from the root, the type first becomes an object of exactly its declared
/// fields.
pub open spec fn with_field_kind(k: Kind, path: FieldPath, t: Kind) -> Kind {
    let base = if path@.len() == 0 { k } else { object_kind(declared_fields(k)) };
    inserted(base, path.segments@, 0, t)
}

/// A schema after `with_field`.
pub open spec fn with_field_model(
    d: DefinitionModel,
    path: FieldPath,
    t: Kind,
    meaning: Option<Seq<char>>,
) -> DefinitionModel {
    DefinitionModel {
        kind: with_field_kind(d.kind, path, t),
        meanings: match meaning {
            Some(m) => d.meanings.insert(m, PointerModel::Valid(path@)),
            None => d.meanings,
        },
        namespaces: d.namespaces,
    }
}

/// `t` widened to also admit null.
pub open spec fn or_null_kind(t: Kind) -> Kind {
    Kind { null: true, ..t }
}

/// A schema after `optional_field`.
pub open spec fn optional_field_model(
    d: DefinitionModel,
    path: FieldPath,
    t: Kind,
    meaning: Option<Seq<char>>,
) -> DefinitionModel {
    with_field_model(d, path, or_null_kind(t), meaning)
}

/// Is `path` a location that the type of the schema declares?
pub open spec fn path_known(d: DefinitionModel, path: FieldPath) -> bool {
    known_at(d.kind, path.segments@, 0) is Some
}

/// Two schemas combined: either one may describe an event.
pub open spec fn merge_model(a: DefinitionModel, b: DefinitionModel) -> DefinitionModel {
    DefinitionModel {
        kind: kind_merge(a.kind, b.kind),
        meanings: merged_meanings(a.meanings, b.meanings),
        namespaces: a.namespaces,
    }
}

pub open spec fn opt_view(m: Option<&str>) -> Option<Seq<char>> {
    match m {
        Some(s) => Some(s@),
        None => None,
    }
}

impl Definition {
    /// The schema is well formed: each meaning name occurs once.
    pub closed spec fn wf(&self) -> bool {
        meanings_wf(self.meaning) && kind_wf(self.kind)
    }

    /// The type of a well-formed schema is well formed.
    pub proof fn lemma_wf_kind(&self)
        requires
            self.wf(),
        ensures
            kind_wf(self@.kind),
    {
    }

    /// An object with no field, no meaning and no namespace.
    pub fn empty() -> (r: Definition)
        ensures
            r.wf(),
            r@.kind == object_kind(empty_collection()),
            r@.meanings == Map::<Seq<char>, PointerModel>::empty(),
            r@.namespaces == Set::<LogNamespace>::empty(),
    {
        let k = Kind::object(Collection::empty());
        assert(known_wf(Known::Nil));
        assert(shape_wf(k.object));
        Definition::empty_kind(k, NamespaceSet::new())
    }

    /// Any event, in both namespaces.
    pub fn any() -> (r: Definition)
        ensures
            r.wf(),
            r@.kind == any_kind(),
            r@.meanings == Map::<Seq<char>, PointerModel>::empty(),
            r@.namespaces == set![LogNamespace::Legacy, LogNamespace::Vector],
    {
        let mut ns = NamespaceSet::new();
        ns.insert(LogNamespace::Legacy);
        ns.insert(LogNamespace::Vector);
        assert(ns@ =~= set![LogNamespace::Legacy, LogNamespace::Vector]);
        let k = Kind::any();
        proof {
            lemma_any_wf();
        }
        Definition::empty_kind(k, ns)
    }

    /// A schema of the given type, with no meaning, for the given namespaces.
    pub fn empty_kind(kind: Kind, log_namespaces: NamespaceSet) -> (r: Definition)
        requires
            kind_wf(kind),
        ensures
            r.wf(),
            r@.kind == kind,
            r@.meanings == Map::<Seq<char>, PointerModel>::empty(),
            r@.namespaces == log_namespaces@,
    {
        Definition { kind, meaning: Meanings::Nil, log_namespaces }
    }

    /// An object with any fields, in the `Legacy` namespace.
    pub fn legacy_default() -> (r: Definition)
        ensures
            r.wf(),
            r@.kind == object_kind(
                Collection { known: Known::Nil, unknown: Some(Unknown::Any) },
            ),
            r@.meanings == Map::<Seq<char>, PointerModel>::empty(),
            r@.namespaces == set![LogNamespace::Legacy],
    {
        let mut ns = NamespaceSet::new();
        ns.insert(LogNamespace::Legacy);
        assert(ns@ =~= set![LogNamespace::Legacy]);
        let k = Kind::any_object();
        proof {
            lemma_any_wf();
            assert(known_wf(Known::Nil));
            assert(shape_wf(k.object));
        }
        Definition::empty_kind(k, ns)
    }

    /// The default schema of a source that emits in the given namespaces.
    pub fn default_for_namespace(log_namespaces: &NamespaceSet) -> (r: Definition)
        ensures
            r.wf(),
            r@.meanings == Map::<Seq<char>, PointerModel>::empty(),
            ({
                let legacy = log_namespaces@.contains(LogNamespace::Legacy);
                let vector = log_namespaces@.contains(LogNamespace::Vector);
                if legacy && !vector {
                    r@.kind == object_kind(
                        Collection { known: Known::Nil, unknown: Some(Unknown::Any) },
                    ) && r@.namespaces == set![LogNamespace::Legacy]
                } else {
                    &&& r@.kind == any_kind()
                    &&& r@.namespaces.contains(LogNamespace::Legacy) == legacy
                    &&& r@.namespaces.contains(LogNamespace::Vector) == vector
                    &&& forall|n: LogNamespace| #[trigger]
                        r@.namespaces.contains(n) ==> n == LogNamespace::Legacy || n
                            == LogNamespace::Vector
                }
            }),
    {
        let is_legacy = log_namespaces.contains(LogNamespace::Legacy);
        let is_vector = log_namespaces.contains(LogNamespace::Vector);
        if is_legacy && !is_vector {
            return Definition::legacy_default();
        }
        let mut ns = NamespaceSet::new();
        if is_legacy {
            ns.insert(LogNamespace::Legacy);
        }
        if is_vector {
            ns.insert(LogNamespace::Vector);
        }
        let k = Kind::any();
        proof {
            lemma_any_wf();
        }
        Definition::empty_kind(k, ns)
    }

    pub fn log_namespaces(&self) -> (r: &NamespaceSet)
        ensures
            r@ == self@.namespaces,
    {
        &self.log_namespaces
    }

    /// May a field be added at `path`? See `with_field`.
    pub fn accepts_field(&self, path: &FieldPath) -> (r: bool)
        ensures
            r == field_allowed(self@, *path),
    {
        let ok = path.is_root() || self.kind.object.is_some();
        let c = path.is_coalesced();
        proof {
            if !c {
                assert forall|j: int| 0 <= j < path.segments@.len() implies !(
                path.segments@[j] is Coalesce) by {
                    assert(!(path@[j] is Coalesce));
                }
            } else {
                let j = choose|j: int| 0 <= j < path@.len() && path@[j] is Coalesce;
                assert(path.segments@[j] is Coalesce);
            }
        }
        ok && !c
    }

    /// Adds a field of type `kind` at `path`, pointing `meaning` at it when
    /// given. Away from the root the type is first narrowed to its object shape.
    pub fn with_field(self, path: FieldPath, kind: Kind, meaning: Option<&str>) -> (r: Definition)
        requires
            self.wf(),
            field_allowed(self@, path),
            kind_wf(kind),
        ensures
            r.wf(),
            r@ == with_field_model(self@, path, kind, opt_view(meaning)),
    {
        let Definition { kind: current, meaning: meanings, log_namespaces } = self;
        let base = if path.is_root() {
            current
        } else {
            let c = current.into_object().unwrap();
            Kind::object(Collection { known: c.known, unknown: None })
        };
        proof {
            lemma_inserted_wf(base, path.segments@, 0, kind);
        }
        let k = match base.insert_at_path(&path, kind) {
            Ok(k) => k,
            Err(_) => {
                proof {
                    assert(false);
                }
                Kind::never()
            },
        };
        let meanings = match meaning {
            Some(m) => set_meaning(meanings, m.to_string(), MeaningPointer::Valid(path)),
            None => meanings,
        };
        let r = Definition { kind: k, meaning: meanings, log_namespaces };
        assert(r@.meanings =~= with_field_model(self@, path, kind, opt_view(meaning)).meanings);
        r
    }

    /// Adds a field at `path` that may also be null or absent.
    pub fn optional_field(self, path: FieldPath, kind: Kind, meaning: Option<&str>) -> (r:
        Definition)
        requires
            self.wf(),
            field_allowed(self@, path),
            kind_wf(kind),
        ensures
            r.wf(),
            r@ == optional_field_model(self@, path, kind, opt_view(meaning)),
    {
        self.with_field(path, kind.or_null(), meaning)
    }

    /// Is `path` a location that the type of the schema declares?
    pub fn knows_path(&self, path: &FieldPath) -> (r: bool)
        ensures
            r == path_known(self@, *path),
    {
        self.kind.find_known_at_path(path).is_some()
    }

    /// Points `meaning` at `path`, a location that the type already declares.
    pub fn with_known_meaning(self, path: FieldPath, meaning: &str) -> (r: Definition)
        requires
            self.wf(),
            path_known(self@, path),
        ensures
            r.wf(),
            r@ == (DefinitionModel {
                meanings: self@.meanings.insert(meaning@, PointerModel::Valid(path@)),
                ..self@
            }),
    {
        let Definition { kind, meaning: meanings, log_namespaces } = self;
        let meanings = set_meaning(meanings, meaning.to_string(), MeaningPointer::Valid(path));
        Definition { kind, meaning: meanings, log_namespaces }
    }

    /// Sets the type of every undeclared field and index of the root type.
    pub fn unknown_fields(self, unknown: Option<Kind>) -> (r: Definition)
        requires
            self.wf(),
            unknown matches Some(u) ==> kind_wf(u),
        ensures
            r.wf(),
            r@ == (DefinitionModel {
                kind: Kind {
                    object: match self@.kind.object {
                        Some(c) => Some(
                            Collection { known: c.known, unknown: unknown_of(unknown) },
                        ),
                        None => None,
                    },
                    array: match self@.kind.array {
                        Some(c) => Some(
                            Collection { known: c.known, unknown: unknown_of(unknown) },
                        ),
                        None => None,
                    },
                    ..self@.kind
                },
                ..self@
            }),
    {
        let Definition { kind, meaning, log_namespaces } = self;
        Definition { kind: kind.set_unknown(unknown), meaning, log_namespaces }
    }

    /// Combines two schemas into one that describes the events of either.
    pub fn merge(self, other: Definition) -> (r: Definition)
        requires
            self.wf(),
            other.wf(),
        ensures
            r.wf(),
            r@ == merge_model(self@, other@),
    {
        let Definition { kind, meaning, log_namespaces } = self;
        let meaning = merge_all_meanings(meaning, other.meaning);
        proof {
            lemma_kind_merge_wf(kind, other.kind);
        }
        let kind = kind.merge(other.kind);
        Definition { kind, meaning, log_namespaces }
    }

    fn get_pointer(&self, name: &str) -> (r: Option<&MeaningPointer>)
        requires
            self.wf(),
        ensures
            r matches Some(p) ==> pointer_distinct(*p),
            r matches Some(p) ==> self@.meanings.contains_key(name@) && self@.meanings[name@]
                == p@,
            r is None ==> !self@.meanings.contains_key(name@),
    {
        let n = name.to_string();
        find_pointer(&self.meaning, &n)
    }

    /// The path that `meaning` points at, when it points at exactly one.
    pub fn meaning_path(&self, meaning: &str) -> (r: Option<&FieldPath>)
        requires
            self.wf(),
        ensures
            r matches Some(p) ==> self@.meanings.contains_key(meaning@) && self@.meanings[meaning@]
                == PointerModel::Valid(p@),
            r is None ==> !(self@.meanings.contains_key(meaning@) && self@.meanings[meaning@] is Valid),
    {
        match self.get_pointer(meaning) {
            Some(MeaningPointer::Valid(p)) => Some(p),
            _ => None,
        }
    }

    /// The paths that `meaning` points at, when it is ambiguous.
    pub fn invalid_meaning(&self, meaning: &str) -> (r: Option<&Vec<FieldPath>>)
        requires
            self.wf(),
        ensures
            r matches Some(v) ==> self@.meanings.contains_key(meaning@) && self@.meanings[meaning@]
                == PointerModel::Invalid(paths_set(v@)),
            r matches Some(v) ==> paths_set(v@).finite() && paths_set(v@).len() >= 2,
            r matches Some(v) ==> paths_distinct(v@),
            r is None ==> !(self@.meanings.contains_key(meaning@) && self@.meanings[meaning@] is Invalid),
    {
        proof {
            lemma_pointers_wf(self.meaning);
        }
        match self.get_pointer(meaning) {
            Some(MeaningPointer::Invalid(v)) => Some(v),
            _ => None,
        }
    }

    /// Every meaning that points at exactly one path, with that path.
    pub fn meanings(&self) -> (r: Vec<(&String, &FieldPath)>)
        requires
            self.wf(),
        ensures
            forall|i: int|
                0 <= i < r@.len() ==> self@.meanings.contains_key(#[trigger] r@[i].0@)
                    && self@.meanings[r@[i].0@] == PointerModel::Valid(r@[i].1@),
        forall|i: int, j: int| 0 <= i < j < r@.len() ==> r@[i].0@ != r@[j].0@,
            forall|k: Seq<char>|
                self@.meanings.contains_key(k) && #[trigger] self@.meanings[k] is Valid ==> exists|
                    i: int,
                | 0 <= i < r@.len() && r@[i].0@ == k,
    {
        let mut out = Vec::new();
        collect_valid(&self.meaning, &mut out);
        out
    }

    /// The structural type of the events.
    pub fn kind(&self) -> (r: &Kind)
        ensures
            *r == self@.kind,
    {
        &self.kind
    }
}

fn find_pointer<'a>(l: &'a Meanings, name: &String) -> (r: Option<&'a MeaningPointer>)
    requires
        meanings_wf(*l),
    ensures
        r matches Some(p) ==> pointer_distinct(*p),
        r matches Some(p) ==> meanings_map(*l).contains_key(name@) && meanings_map(*l)[name@]
            == p@,
        r is None ==> !meanings_map(*l).contains_key(name@),
    decreases l,
{
    match l {
        Meanings::Nil => {
            assert(meanings_map(*l) =~= Map::empty());
            None
        },
        Meanings::Entry(k, p, rest) => {
            if *k == *name {
                Some(p)
            } else {
                find_pointer(rest, name)
            }
        },
    }
}

fn collect_valid<'a>(l: &'a Meanings, out: &mut Vec<(&'a String, &'a FieldPath)>)
    requires
        meanings_wf(*l),
        forall|i: int|
            0 <= i < old(out)@.len() ==> !meanings_map(*l).contains_key(#[trigger] old(out)@[i].0@),
        forall|i: int, j: int|
            0 <= i < j < old(out)@.len() ==> old(out)@[i].0@ != old(out)@[j].0@,
    ensures
        forall|i: int, j: int|
            0 <= i < j < final(out)@.len() ==> final(out)@[i].0@ != final(out)@[j].0@,
        final(out)@.len() >= old(out)@.len(),
        forall|i: int| 0 <= i < old(out)@.len() ==> final(out)@[i] == old(out)@[i],
        forall|i: int|
            old(out)@.len() <= i < final(out)@.len() ==> meanings_map(*l).contains_key(
                #[trigger] final(out)@[i].0@,
            ) && meanings_map(*l)[final(out)@[i].0@] == PointerModel::Valid(final(out)@[i].1@),
        forall|k: Seq<char>|
            meanings_map(*l).contains_key(k) && #[trigger] meanings_map(*l)[k] is Valid ==> exists|
                i: int,
            | old(out)@.len() <= i < final(out)@.len() && final(out)@[i].0@ == k,
    decreases l,
{
    match l {
        Meanings::Nil => {
            assert(meanings_map(*l) =~= Map::empty());
        },
        Meanings::Entry(k, p, rest) => {
            let ghost start = out@.len();
            match p {
                MeaningPointer::Valid(path) => {
                    out.push((k, path));
                },
                MeaningPointer::Invalid(_) => {},
            }
            let ghost mid = out@;
            collect_valid(rest, out);
            proof {
                assert forall|q: Seq<char>|
                    meanings_map(*l).contains_key(q) && #[trigger] meanings_map(*l)[q] is Valid implies exists|
                        i: int,
                    | start <= i < out@.len() && out@[i].0@ == q by {
                    if q == k@ {
                        assert(out@[start as int] == mid[start as int]);
                        assert(out@[start as int].0@ == q);
                    } else {
                        assert(meanings_map(**rest).contains_key(q));
                        assert(meanings_map(**rest)[q] is Valid);
                    }
                }
            }
        },
    }
}

proof fn lemma_any_wf()
    ensures
        kind_wf(any_kind()),
{
    assert(known_wf(Known::Nil));
    assert(shape_wf(any_kind().object));
    assert(shape_wf(any_kind().array));
}

} // verus!
