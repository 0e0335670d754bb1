//! The structural type of an event: which scalar shapes a value may take, and
//! the known fields or indices of its object and array shapes.
use vstd::prelude::*;
use crate::path::{FieldPath, Segment, SegmentModel};

verus! {

/// The key of a known entry: a field name of an object or a position of an array.
#[derive(Debug, PartialEq)]
pub enum Key {
    Field(String),
    Index(usize),
}

pub ghost enum KeyModel {
    Field(Seq<char>),
    Index(nat),
}

impl View for Key {
    type V = KeyModel;

    open spec fn view(&self) -> KeyModel {
        match self {
            Key::Field(f) => KeyModel::Field(f@),
            Key::Index(i) => KeyModel::Index(*i as nat),
        }
    }
}

/// The known entries of a collection, in the order they were first declared.
#[derive(Debug, PartialEq)]
pub enum Known {
    Nil,
    Entry(Key, Box<Kind>, Box<Known>),
}

/// An object or array shape: its known entries, and the type of every entry
/// that is not known (`None`: no other entry may exist).
#[derive(Debug, PartialEq)]
pub struct Collection {
    pub known: Known,
    pub unknown: Option<Unknown>,
}

/// The type of the entries of a collection that are not known.
#[derive(Debug, PartialEq)]
pub enum Unknown {
    /// Any value at all.
    Any,
    /// Values of the given type.
    Of(Box<Kind>),
}

/// A structural type: the union of the shapes that it admits.
#[derive(Debug, PartialEq)]
pub struct Kind {
    pub bytes: bool,
    pub integer: bool,
    pub float: bool,
    pub boolean: bool,
    pub timestamp: bool,
    pub regex: bool,
    pub null: bool,
    pub undefined: bool,
    pub object: Option<Collection>,
    pub array: Option<Collection>,
}

/// The type that admits no value at all.
pub open spec fn never_kind() -> Kind {
    Kind {
        bytes: false,
        integer: false,
        float: false,
        boolean: false,
        timestamp: false,
        regex: false,
        null: false,
        undefined: false,
        object: None,
        array: None,
    }
}

/// An object or array shape with no known entry and no other entry allowed.
pub open spec fn empty_collection() -> Collection {
    Collection { known: Known::Nil, unknown: None }
}

/// A type with only an object shape.
pub open spec fn object_kind(c: Collection) -> Kind {
    Kind { object: Some(c), ..never_kind() }
}

/// A type with only an array shape.
pub open spec fn array_kind(c: Collection) -> Kind {
    Kind { array: Some(c), ..never_kind() }
}

/// The value of the first entry with key `k`, if any.
pub open spec fn known_get(l: Known, k: KeyModel) -> Option<Kind>
    decreases l,
{
    match l {
        Known::Nil => None,
        Known::Entry(k2, v, r) => if k2@ == k {
            Some(*v)
        } else {
            known_get(*r, k)
        },
    }
}

/// The entries with the first entry of key `k` set to `v`; `k` is added at the
/// end when absent.
pub open spec fn known_set(l: Known, k: Key, v: Kind) -> Known
    decreases l,
{
    match l {
        Known::Nil => Known::Entry(k, Box::new(v), Box::new(Known::Nil)),
        Known::Entry(k2, v2, r) => if k2@ == k@ {
            Known::Entry(k2, Box::new(v), r)
        } else {
            Known::Entry(k2, v2, Box::new(known_set(*r, k, v)))
        },
    }
}

/// The key that a field or index segment addresses.
pub open spec fn segment_key(s: Segment) -> Key {
    match s {
        Segment::Field(f) => Key::Field(f),
        Segment::Index(i) => Key::Index(i),
        Segment::Coalesce(_) => Key::Index(0),
    }
}

/// The type found by following `path` from position `i` on, through known
/// entries only.
pub open spec fn known_at(k: Kind, path: Seq<Segment>, i: int) -> Option<Kind>
    decreases path.len() - i,
{
    if i < 0 || i >= path.len() {
        Some(k)
    } else {
        let c = match path[i] {
            Segment::Field(_) => k.object,
            Segment::Index(_) => k.array,
            Segment::Coalesce(_) => None,
        };
        match c {
            None => None,
            Some(c) => match known_get(c.known, segment_key(path[i])@) {
                None => None,
                Some(v) => known_at(v, path, i + 1),
            },
        }
    }
}

/// The type `k` with `t` stored at `path` from position `i` on. A type met on
/// the way without the needed object or array shape is replaced by one with
/// only that (empty) shape; an existing type at the end is replaced.
pub open spec fn inserted(k: Kind, path: Seq<Segment>, i: int, t: Kind) -> Kind
    decreases path.len() - i,
{
    if i < 0 || i >= path.len() {
        t
    } else {
        match path[i] {
            Segment::Field(_) => {
                let base = if k.object is Some { k } else { object_kind(empty_collection()) };
                let c = base.object->0;
                let key = segment_key(path[i]);
                let child = match known_get(c.known, key@) {
                    Some(v) => v,
                    None => never_kind(),
                };
                let c2 = Collection {
                    known: known_set(c.known, key, inserted(child, path, i + 1, t)),
                    unknown: c.unknown,
                };
                Kind { object: Some(c2), ..base }
            },
            Segment::Index(_) => {
                let base = if k.array is Some { k } else { array_kind(empty_collection()) };
                let c = base.array->0;
                let key = segment_key(path[i]);
                let child = match known_get(c.known, key@) {
                    Some(v) => v,
                    None => never_kind(),
                };
                let c2 = Collection {
                    known: known_set(c.known, key, inserted(child, path, i + 1, t)),
                    unknown: c.unknown,
                };
                Kind { array: Some(c2), ..base }
            },
            Segment::Coalesce(_) => k,
        }
    }
}

fn key_of(s: &Segment) -> (r: Key)
    requires
        !(s is Coalesce),
    ensures
        r == segment_key(*s),
{
    match s {
        Segment::Field(f) => Key::Field(f.clone()),
        Segment::Index(i) => Key::Index(*i),
        Segment::Coalesce(_) => Key::Index(0),
    }
}

fn key_equal(a: &Key, b: &Key) -> (r: bool)
    ensures
        r == (a@ == b@),
{
    match a {
        Key::Field(x) => match b {
            Key::Field(y) => *x == *y,
            _ => false,
        },
        Key::Index(x) => match b {
            Key::Index(y) => *x == *y,
            _ => false,
        },
    }
}

impl Known {
    /// The value of the first entry with key `k`, if any.
    pub fn get(&self, k: &Key) -> (r: Option<&Kind>)
        ensures
            r matches Some(v) ==> known_get(*self, k@) == Some(*v),
            r is None ==> known_get(*self, k@) is None,
        decreases self,
    {
        match self {
            Known::Nil => None,
            Known::Entry(k2, v, rest) => {
                if key_equal(k2, k) {
                    Some(&**v)
                } else {
                    rest.get(k)
                }
            },
        }
    }

    /// Sets the first entry with key `k` to `v`, or adds the entry at the end.
    pub fn set(self, k: Key, v: Kind) -> (r: Known)
        ensures
            r == known_set(self, k, v),
        decreases self,
    {
        match self {
            Known::Nil => Known::Entry(k, Box::new(v), Box::new(Known::Nil)),
            Known::Entry(k2, v2, rest) => {
                if key_equal(&k2, &k) {
                    Known::Entry(k2, Box::new(v), rest)
                } else {
                    Known::Entry(k2, v2, Box::new((*rest).set(k, v)))
                }
            },
        }
    }

    /// Takes out the value of the first entry with key `k`; the entry keeps
    /// the type that admits nothing in its place.
    fn take(self, k: &Key) -> (r: (Known, Option<Kind>))
        ensures
            r.1 == known_get(self, k@),
            r.1 is Some ==> forall|v: Kind| known_set(r.0, *k, v) == known_set(self, *k, v),
            r.1 is None ==> r.0 == self,
        decreases self,
    {
        match self {
            Known::Nil => (Known::Nil, None),
            Known::Entry(k2, v2, rest) => {
                if key_equal(&k2, k) {
                    (Known::Entry(k2, Box::new(Kind::never()), rest), Some(*v2))
                } else {
                    let ghost old_rest = *rest;
                    let (rest2, found) = (*rest).take(k);
                    let r = (Known::Entry(k2, v2, Box::new(rest2)), found);
                    proof {
                        if found is Some {
                            assert forall|v: Kind| known_set(r.0, *k, v) == known_set(self, *k, v) by {
                                assert(known_set(rest2, *k, v) == known_set(old_rest, *k, v));
                            }
                        }
                    }
                    r
                }
            },
        }
    }
}

impl Collection {
    /// A shape with no known entry, and no other entry allowed.
    pub fn empty() -> (r: Collection)
        ensures
            r == empty_collection(),
    {
        Collection { known: Known::Nil, unknown: None }
    }

    /// A shape with no known entry, where any entry may exist.
    pub fn any() -> (r: Collection)
        ensures
            r.known == Known::Nil,
            r.unknown == Some(Unknown::Any),
    {
        Collection { known: Known::Nil, unknown: Some(Unknown::Any) }
    }

    /// The shape with a known entry `k` of type `v` added in front, for a key
    /// that is not known yet.
    pub fn with_known(self, k: Key, v: Kind) -> (r: Collection)
        requires
            known_get(self.known, k@) is None,
        ensures
            r.known == Known::Entry(k, Box::new(v), Box::new(self.known)),
            r.unknown == self.unknown,
    {
        Collection { known: Known::Entry(k, Box::new(v), Box::new(self.known)), unknown: self.unknown }
    }

    /// Sets the type of every entry that is not known.
    pub fn set_unknown(self, unknown: Option<Kind>) -> (r: Collection)
        ensures
            r.known == self.known,
            r.unknown == unknown_of(unknown),
    {
        let u = match unknown {
            Some(u) => Some(Unknown::Of(Box::new(u))),
            None => None,
        };
        Collection { known: self.known, unknown: u }
    }
}

/// The type that admits every value.
pub open spec fn any_kind() -> Kind {
    Kind {
        bytes: true,
        integer: true,
        float: true,
        boolean: true,
        timestamp: true,
        regex: true,
        null: true,
        undefined: true,
        object: Some(Collection { known: Known::Nil, unknown: Some(Unknown::Any) }),
        array: Some(Collection { known: Known::Nil, unknown: Some(Unknown::Any) }),
    }
}

impl Kind {
    /// The type that admits no value at all.
    pub fn never() -> (r: Kind)
        ensures
            r == never_kind(),
    {
        Kind {
            bytes: false,
            integer: false,
            float: false,
            boolean: false,
            timestamp: false,
            regex: false,
            null: false,
            undefined: false,
            object: None,
            array: None,
        }
    }

    /// The type that admits every value: every scalar, and objects and arrays
    /// with any entries.
    pub fn any() -> (r: Kind)
        ensures
            r == any_kind(),
    {
        Kind {
            bytes: true,
            integer: true,
            float: true,
            boolean: true,
            timestamp: true,
            regex: true,
            null: true,
            undefined: true,
            object: Some(Collection::any()),
            array: Some(Collection::any()),
        }
    }
}


/// The union of two types, keeping the entries of both sides at every depth:
/// an entry known on both sides gets the union of its two types.
pub open spec fn kind_merge(a: Kind, b: Kind) -> Kind
    decreases b, a,
{
    Kind {
        bytes: a.bytes || b.bytes,
        integer: a.integer || b.integer,
        float: a.float || b.float,
        boolean: a.boolean || b.boolean,
        timestamp: a.timestamp || b.timestamp,
        regex: a.regex || b.regex,
        null: a.null || b.null,
        undefined: a.undefined || b.undefined,
        object: shape_merge(a.object, b.object),
        array: shape_merge(a.array, b.array),
    }
}

pub open spec fn shape_merge(a: Option<Collection>, b: Option<Collection>) -> Option<Collection>
    decreases b, a,
{
    match b {
        None => a,
        Some(cb) => match a {
            None => Some(cb),
            Some(ca) => Some(collection_merge(ca, cb)),
        },
    }
}

pub open spec fn collection_merge(a: Collection, b: Collection) -> Collection
    decreases b, a,
{
    Collection { known: known_merge(a.known, b.known), unknown: unknown_merge(a.unknown, b.unknown) }
}

/// The union of two types of unknown entries; a closed side adds nothing.
pub open spec fn unknown_merge(a: Option<Unknown>, b: Option<Unknown>) -> Option<Unknown>
    decreases b, a,
{
    match b {
        None => a,
        Some(Unknown::Any) => Some(Unknown::Any),
        Some(Unknown::Of(ub)) => match a {
            None => b,
            Some(Unknown::Any) => a,
            Some(Unknown::Of(ua)) => Some(Unknown::Of(Box::new(kind_merge(*ua, *ub)))),
        },
    }
}

/// Every entry of `b`, in order, merged into `a`.
pub open spec fn known_merge(a: Known, b: Known) -> Known
    decreases b, a,
{
    match b {
        Known::Nil => a,
        Known::Entry(k, v, r) => known_merge(merge_into(a, k, *v), *r),
    }
}

/// The entry `k: v` merged into `a`: the union with the first entry of key `k`,
/// or added at the end.
pub open spec fn merge_into(a: Known, k: Key, v: Kind) -> Known
    decreases v, a,
{
    match a {
        Known::Nil => Known::Entry(k, Box::new(v), Box::new(Known::Nil)),
        Known::Entry(k2, v2, r2) => if k2@ == k@ {
            Known::Entry(k2, Box::new(kind_merge(*v2, v)), r2)
        } else {
            Known::Entry(k2, v2, Box::new(merge_into(*r2, k, v)))
        },
    }
}

impl Known {
    fn merge(self, other: Known) -> (r: Known)
        ensures
            r == known_merge(self, other),
        decreases other, self,
    {
        match other {
            Known::Nil => self,
            Known::Entry(k, v, rest) => self.merge_entry(k, *v).merge(*rest),
        }
    }

    fn merge_entry(self, k: Key, v: Kind) -> (r: Known)
        ensures
            r == merge_into(self, k, v),
        decreases v, self,
    {
        match self {
            Known::Nil => Known::Entry(k, Box::new(v), Box::new(Known::Nil)),
            Known::Entry(k2, v2, r2) => {
                if key_equal(&k2, &k) {
                    Known::Entry(k2, Box::new((*v2).merge(v)), r2)
                } else {
                    Known::Entry(k2, v2, Box::new((*r2).merge_entry(k, v)))
                }
            },
        }
    }
}

impl Collection {
    fn merge(self, other: Collection) -> (r: Collection)
        ensures
            r == collection_merge(self, other),
        decreases other, self,
    {
        let unknown = match other.unknown {
            None => self.unknown,
            Some(Unknown::Any) => Some(Unknown::Any),
            Some(Unknown::Of(ub)) => match self.unknown {
                None => Some(Unknown::Of(ub)),
                Some(Unknown::Any) => Some(Unknown::Any),
                Some(Unknown::Of(ua)) => Some(Unknown::Of(Box::new((*ua).merge(*ub)))),
            },
        };
        Collection { known: self.known.merge(other.known), unknown }
    }
}

fn merge_shapes(a: Option<Collection>, b: Option<Collection>) -> (r: Option<Collection>)
    ensures
        r == shape_merge(a, b),
    decreases b, a,
{
    match b {
        None => a,
        Some(cb) => match a {
            None => Some(cb),
            Some(ca) => Some(ca.merge(cb)),
        },
    }
}

impl Kind {
    /// The union of the two types, keeping the known entries of both sides at
    /// every depth.
    pub fn merge(self, other: Kind) -> (r: Kind)
        ensures
            r == kind_merge(self, other),
        decreases other, self,
    {
        Kind {
            bytes: self.bytes || other.bytes,
            integer: self.integer || other.integer,
            float: self.float || other.float,
            boolean: self.boolean || other.boolean,
            timestamp: self.timestamp || other.timestamp,
            regex: self.regex || other.regex,
            null: self.null || other.null,
            undefined: self.undefined || other.undefined,
            object: merge_shapes(self.object, other.object),
            array: merge_shapes(self.array, other.array),
        }
    }
}


/// Does any segment of the path from position `i` on hold alternatives?
pub open spec fn coalesced_from(path: Seq<Segment>, i: int) -> bool {
    exists|j: int| i <= j < path.len() && path[j] is Coalesce
}

impl Kind {
    pub fn bytes() -> (r: Kind)
        ensures
            r == (Kind { bytes: true, ..never_kind() }),
    {
        Kind { bytes: true, ..Kind::never() }
    }

    pub fn integer() -> (r: Kind)
        ensures
            r == (Kind { integer: true, ..never_kind() }),
    {
        Kind { integer: true, ..Kind::never() }
    }

    pub fn float() -> (r: Kind)
        ensures
            r == (Kind { float: true, ..never_kind() }),
    {
        Kind { float: true, ..Kind::never() }
    }

    pub fn boolean() -> (r: Kind)
        ensures
            r == (Kind { boolean: true, ..never_kind() }),
    {
        Kind { boolean: true, ..Kind::never() }
    }

    pub fn timestamp() -> (r: Kind)
        ensures
            r == (Kind { timestamp: true, ..never_kind() }),
    {
        Kind { timestamp: true, ..Kind::never() }
    }

    pub fn regex() -> (r: Kind)
        ensures
            r == (Kind { regex: true, ..never_kind() }),
    {
        Kind { regex: true, ..Kind::never() }
    }

    pub fn null() -> (r: Kind)
        ensures
            r == (Kind { null: true, ..never_kind() }),
    {
        Kind { null: true, ..Kind::never() }
    }

    /// A type with only the given object shape.
    pub fn object(c: Collection) -> (r: Kind)
        ensures
            r == object_kind(c),
    {
        Kind { object: Some(c), ..Kind::never() }
    }

    /// A type with only the given array shape.
    pub fn array(c: Collection) -> (r: Kind)
        ensures
            r == array_kind(c),
    {
        Kind { array: Some(c), ..Kind::never() }
    }

    /// An object with any fields.
    pub fn any_object() -> (r: Kind)
        ensures
            r.object is Some,
            r.object->0.known == Known::Nil,
            r.object->0.unknown == Some(Unknown::Any),
            r == object_kind(r.object->0),
    {
        Kind::object(Collection::any())
    }

    /// This type widened to also admit null.
    pub fn or_null(self) -> (r: Kind)
        ensures
            r == (Kind { null: true, ..self }),
    {
        Kind { null: true, ..self }
    }

    /// The object shape of this type, if it has one.
    pub fn into_object(self) -> (r: Option<Collection>)
        ensures
            r == self.object,
    {
        self.object
    }

    /// Sets the type of unknown entries of both the object and the array shape
    /// (those that the type has).
    pub fn set_unknown(self, unknown: Option<Kind>) -> (r: Kind)
        ensures
            r == (Kind {
                object: match self.object {
                    Some(c) => Some(Collection { known: c.known, unknown: unknown_of(unknown) }),
                    None => None,
                },
                array: match self.array {
                    Some(c) => Some(Collection { known: c.known, unknown: unknown_of(unknown) }),
                    None => None,
                },
                ..self
            }),
    {
        let (for_object, for_array) = match unknown {
            Some(u) => (Some(u.duplicate()), Some(u)),
            None => (None, None),
        };
        let object = match self.object {
            Some(c) => Some(c.set_unknown(for_object)),
            None => None,
        };
        let array = match self.array {
            Some(c) => Some(c.set_unknown(for_array)),
            None => None,
        };
        Kind { object, array, ..self }
    }

    /// The type found at `path` through known entries, if the path is known.
    pub fn find_known_at_path(&self, path: &FieldPath) -> (r: Option<&Kind>)
        ensures
            r matches Some(v) ==> known_at(*self, path.segments@, 0) == Some(*v),
            r is None ==> known_at(*self, path.segments@, 0) is None,
    {
        self.find_from(path, 0)
    }

    fn find_from(&self, path: &FieldPath, i: usize) -> (r: Option<&Kind>)
        requires
            i <= path.segments@.len(),
        ensures
            r matches Some(v) ==> known_at(*self, path.segments@, i as int) == Some(*v),
            r is None ==> known_at(*self, path.segments@, i as int) is None,
        decreases path.segments@.len() - i,
    {
        if i >= path.segments.len() {
            return Some(self);
        }
        let seg = &path.segments[i];
        let c = match seg {
            Segment::Field(_) => &self.object,
            Segment::Index(_) => &self.array,
            Segment::Coalesce(_) => {
                return None;
            },
        };
        match c {
            None => None,
            Some(c) => {
                let key = key_of(seg);
                match c.known.get(&key) {
                    None => None,
                    Some(v) => v.find_from(path, i + 1),
                }
            },
        }
    }

    /// This type with `t` stored at `path`; fails when the path holds
    /// alternatives. See `inserted` for what is replaced on the way.
    pub fn insert_at_path(self, path: &FieldPath, t: Kind) -> (r: Result<Kind, InsertError>)
        ensures
            r is Err <==> coalesced_from(path.segments@, 0),
            r matches Ok(k) ==> k == inserted(self, path.segments@, 0, t),
    {
        if path.is_coalesced() {
            proof {
                let j = choose|j: int| 0 <= j < path@.len() && path@[j] is Coalesce;
                assert(path.segments@[j] is Coalesce);
            }
            return Err(InsertError::CoalescedPath);
        }
        proof {
            assert forall|j: int| 0 <= j < path.segments@.len() implies !(path.segments@[j] is Coalesce) by {
                assert(!(path@[j] is Coalesce));
            }
        }
        Ok(self.insert_from(path, 0, t))
    }

    fn insert_from(self, path: &FieldPath, i: usize, t: Kind) -> (r: Kind)
        requires
            i <= path.segments@.len(),
            !coalesced_from(path.segments@, i as int),
        ensures
            r == inserted(self, path.segments@, i as int, t),
        decreases path.segments@.len() - i,
    {
        if i >= path.segments.len() {
            return t;
        }
        let seg = &path.segments[i];
        proof {
            assert(!(path.segments@[i as int] is Coalesce));
        }
        let key = key_of(seg);
        let is_field = match seg {
            Segment::Field(_) => true,
            _ => false,
        };
        let base = if is_field {
            if self.object.is_some() { self } else { Kind::object(Collection::empty()) }
        } else {
            if self.array.is_some() { self } else { Kind::array(Collection::empty()) }
        };
        let Kind { bytes, integer, float, boolean, timestamp, regex, null, undefined, object, array } = base;
        let (c, other_shape) = if is_field { (object.unwrap(), array) } else { (array.unwrap(), object) };
        let ghost old_known = c.known;
        let (known, found) = c.known.take(&key);
        let child = match found {
            Some(v) => v,
            None => Kind::never(),
        };
        let child = child.insert_from(path, i + 1, t);
        let ghost new_child = child;
        let known = known.set(key, child);
        assert(known == known_set(old_known, key, new_child));
        let c2 = Collection { known, unknown: c.unknown };
        if is_field {
            Kind { bytes, integer, float, boolean, timestamp, regex, null, undefined, object: Some(c2), array: other_shape }
        } else {
            Kind { bytes, integer, float, boolean, timestamp, regex, null, undefined, object: other_shape, array: Some(c2) }
        }
    }

    /// A copy of this type.
    pub fn duplicate(&self) -> (r: Kind)
        ensures
            r == *self,
        decreases self,
    {
        Kind {
            bytes: self.bytes,
            integer: self.integer,
            float: self.float,
            boolean: self.boolean,
            timestamp: self.timestamp,
            regex: self.regex,
            null: self.null,
            undefined: self.undefined,
            object: match &self.object {
                Some(c) => Some(c.duplicate()),
                None => None,
            },
            array: match &self.array {
                Some(c) => Some(c.duplicate()),
                None => None,
            },
        }
    }
}

/// Unknown entries of type `k`, or none allowed.
pub open spec fn unknown_of(k: Option<Kind>) -> Option<Unknown> {
    match k {
        Some(u) => Some(Unknown::Of(Box::new(u))),
        None => None,
    }
}

impl Collection {
    /// A copy of this shape.
    pub fn duplicate(&self) -> (r: Collection)
        ensures
            r == *self,
        decreases self,
    {
        Collection {
            known: self.known.duplicate(),
            unknown: match &self.unknown {
                Some(Unknown::Of(u)) => Some(Unknown::Of(Box::new((**u).duplicate()))),
                Some(Unknown::Any) => Some(Unknown::Any),
                None => None,
            },
        }
    }
}

impl Key {
    pub fn duplicate(&self) -> (r: Key)
        ensures
            r == *self,
    {
        match self {
            Key::Field(f) => Key::Field(f.clone()),
            Key::Index(i) => Key::Index(*i),
        }
    }
}

impl Known {
    /// A copy of these entries.
    pub fn duplicate(&self) -> (r: Known)
        ensures
            r == *self,
        decreases self,
    {
        match self {
            Known::Nil => Known::Nil,
            Known::Entry(k, v, rest) => Known::Entry(
                k.duplicate(),
                Box::new((**v).duplicate()),
                Box::new((**rest).duplicate()),
            ),
        }
    }
}

/// Why a type could not be stored at a path.
#[derive(Debug, PartialEq, Eq, Clone, Copy)]
pub enum InsertError {
    /// The path holds alternative segments, which name no single location.
    CoalescedPath,
}

/// No key occurs twice in a collection, at any depth.
pub open spec fn kind_wf(k: Kind) -> bool
    decreases k,
{
    shape_wf(k.object) && shape_wf(k.array)
}

pub open spec fn shape_wf(o: Option<Collection>) -> bool
    decreases o,
{
    match o {
        None => true,
        Some(c) => known_wf(c.known) && match c.unknown {
            Some(Unknown::Of(u)) => kind_wf(*u),
            _ => true,
        },
    }
}

pub open spec fn known_wf(l: Known) -> bool
    decreases l,
{
    match l {
        Known::Nil => true,
        Known::Entry(k, v, r) => known_get(*r, k@) is None && kind_wf(*v) && known_wf(*r),
    }
}

proof fn lemma_set_get_other(l: Known, k: Key, v: Kind, k2: KeyModel)
    requires
        k2 != k@,
    ensures
        known_get(known_set(l, k, v), k2) == known_get(l, k2),
    decreases l,
{
    match l {
        Known::Nil => {},
        Known::Entry(_, _, r) => {
            lemma_set_get_other(*r, k, v, k2);
        },
    }
}

proof fn lemma_set_wf(l: Known, k: Key, v: Kind)
    requires
        known_wf(l),
        kind_wf(v),
    ensures
        known_wf(known_set(l, k, v)),
    decreases l,
{
    match l {
        Known::Nil => {},
        Known::Entry(k2, _, r) => {
            if k2@ != k@ {
                lemma_set_get_other(*r, k, v, k2@);
                lemma_set_wf(*r, k, v);
            }
        },
    }
}

proof fn lemma_get_wf(l: Known, k: KeyModel)
    requires
        known_wf(l),
    ensures
        known_get(l, k) matches Some(v) ==> kind_wf(v),
    decreases l,
{
    match l {
        Known::Nil => {},
        Known::Entry(_, _, r) => {
            lemma_get_wf(*r, k);
        },
    }
}

/// Storing a well-formed type in a well-formed type keeps it well formed.
pub proof fn lemma_inserted_wf(k: Kind, path: Seq<Segment>, i: int, t: Kind)
    requires
        kind_wf(k),
        kind_wf(t),
    ensures
        kind_wf(inserted(k, path, i, t)),
    decreases path.len() - i,
{
    if 0 <= i < path.len() {
        if !(path[i] is Coalesce) {
            let is_field = path[i] is Field;
            let base = if is_field {
                if k.object is Some { k } else { object_kind(empty_collection()) }
            } else {
                if k.array is Some { k } else { array_kind(empty_collection()) }
            };
            assert(known_wf(Known::Nil));
            assert(shape_wf(Some(empty_collection())));
            assert(shape_wf(None));
            assert(kind_wf(object_kind(empty_collection())));
            assert(kind_wf(array_kind(empty_collection())));
            let c = if is_field { base.object->0 } else { base.array->0 };
            let key = segment_key(path[i]);
            lemma_get_wf(c.known, key@);
            let child = match known_get(c.known, key@) {
                Some(v) => v,
                None => never_kind(),
            };
            assert(kind_wf(never_kind()));
            lemma_inserted_wf(child, path, i + 1, t);
            lemma_set_wf(c.known, key, inserted(child, path, i + 1, t));
        }
    }
}

proof fn lemma_merge_into_get_other(a: Known, k: Key, v: Kind, k2: KeyModel)
    requires
        k2 != k@,
    ensures
        known_get(merge_into(a, k, v), k2) == known_get(a, k2),
    decreases a,
{
    match a {
        Known::Nil => {},
        Known::Entry(_, _, r) => {
            lemma_merge_into_get_other(*r, k, v, k2);
        },
    }
}

/// The union of well-formed types is well formed.
pub proof fn lemma_kind_merge_wf(a: Kind, b: Kind)
    requires
        kind_wf(a),
        kind_wf(b),
    ensures
        kind_wf(kind_merge(a, b)),
    decreases b, a,
{
    lemma_shape_merge_wf(a.object, b.object);
    lemma_shape_merge_wf(a.array, b.array);
}

proof fn lemma_shape_merge_wf(a: Option<Collection>, b: Option<Collection>)
    requires
        shape_wf(a),
        shape_wf(b),
    ensures
        shape_wf(shape_merge(a, b)),
    decreases b, a,
{
    match b {
        None => {},
        Some(cb) => match a {
            None => {},
            Some(ca) => {
                lemma_collection_merge_wf(ca, cb);
            },
        },
    }
}

proof fn lemma_collection_merge_wf(a: Collection, b: Collection)
    requires
        shape_wf(Some(a)),
        shape_wf(Some(b)),
    ensures
        shape_wf(Some(collection_merge(a, b))),
    decreases b, a,
{
    lemma_known_merge_wf(a.known, b.known);
    lemma_unknown_merge_wf(a.unknown, b.unknown);
}

proof fn lemma_unknown_merge_wf(a: Option<Unknown>, b: Option<Unknown>)
    requires
        a matches Some(Unknown::Of(u)) ==> kind_wf(*u),
        b matches Some(Unknown::Of(u)) ==> kind_wf(*u),
    ensures
        unknown_merge(a, b) matches Some(Unknown::Of(u)) ==> kind_wf(*u),
    decreases b, a,
{
    match b {
        Some(Unknown::Of(ub)) => match a {
            Some(Unknown::Of(ua)) => {
                lemma_kind_merge_wf(*ua, *ub);
            },
            _ => {},
        },
        _ => {},
    }
}

proof fn lemma_known_merge_wf(a: Known, b: Known)
    requires
        known_wf(a),
        known_wf(b),
    ensures
        known_wf(known_merge(a, b)),
    decreases b, a,
{
    match b {
        Known::Nil => {},
        Known::Entry(k, v, r) => {
            lemma_merge_into_wf(a, k, *v);
            lemma_known_merge_wf(merge_into(a, k, *v), *r);
        },
    }
}

proof fn lemma_merge_into_wf(a: Known, k: Key, v: Kind)
    requires
        known_wf(a),
        kind_wf(v),
    ensures
        known_wf(merge_into(a, k, v)),
    decreases v, a,
{
    match a {
        Known::Nil => {},
        Known::Entry(k2, v2, r2) => {
            if k2@ == k@ {
                lemma_kind_merge_wf(*v2, v);
            } else {
                lemma_merge_into_get_other(*r2, k, v, k2@);
                lemma_merge_into_wf(*r2, k, v);
            }
        },
    }
}

} // verus!
