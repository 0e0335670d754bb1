//! Field paths into an event.
use vstd::prelude::*;

verus! {

/// One step of a path.
#[derive(Clone, Debug, PartialEq, Eq, PartialOrd, Ord, Hash)]
pub enum Segment {
    /// A named field of an object.
    Field(String),
    /// A position in an array.
    Index(usize),
    /// The first of several alternative fields that exists.
    Coalesce(Vec<String>),
}

/// The mathematical value of a segment.
pub ghost enum SegmentModel {
    Field(Seq<char>),
    Index(nat),
    Coalesce(Seq<Seq<char>>),
}

/// The mathematical value of a path: its segments in order.
pub type PathModel = Seq<SegmentModel>;

pub open spec fn names_view(v: Seq<String>) -> Seq<Seq<char>> {
    v.map_values(|s: String| s@)
}

impl View for Segment {
    type V = SegmentModel;

    open spec fn view(&self) -> SegmentModel {
        match self {
            Segment::Field(f) => SegmentModel::Field(f@),
            Segment::Index(i) => SegmentModel::Index(*i as nat),
            Segment::Coalesce(v) => SegmentModel::Coalesce(names_view(v@)),
        }
    }
}

/// A path from the root of an event to a nested location.
#[derive(Clone, Debug, PartialEq, Eq, PartialOrd, Ord, Hash)]
pub struct FieldPath {
    pub segments: Vec<Segment>,
}

impl View for FieldPath {
    type V = PathModel;

    open spec fn view(&self) -> PathModel {
        self.segments@.map_values(|s: Segment| s@)
    }
}

/// Does the path hold an alternative (coalesced) segment?
pub open spec fn has_coalesced(p: PathModel) -> bool {
    exists|i: int| 0 <= i < p.len() && p[i] is Coalesce
}

fn names_equal(a: &Vec<String>, b: &Vec<String>) -> (r: bool)
    ensures
        r == (names_view(a@) == names_view(b@)),
{
    if a.len() != b.len() {
        proof {
            assert(names_view(a@).len() != names_view(b@).len());
        }
        return false;
    }
    let mut i: usize = 0;
    while i < a.len()
        invariant
            a.len() == b.len(),
            i <= a.len(),
            forall|j: int| 0 <= j < i ==> a@[j]@ == b@[j]@,
        decreases a.len() - i,
    {
        if a[i] != b[i] {
            proof {
                assert(names_view(a@)[i as int] != names_view(b@)[i as int]);
            }
            return false;
        }
        i = i + 1;
    }
    assert(names_view(a@) =~= names_view(b@));
    true
}

fn segment_equal(a: &Segment, b: &Segment) -> (r: bool)
    ensures
        r == (a@ == b@),
{
    match a {
        Segment::Field(x) => match b {
            Segment::Field(y) => *x == *y,
            _ => false,
        },
        Segment::Index(x) => match b {
            Segment::Index(y) => *x == *y,
            _ => false,
        },
        Segment::Coalesce(x) => match b {
            Segment::Coalesce(y) => names_equal(x, y),
            _ => false,
        },
    }
}

impl FieldPath {
    /// The path to the root of the event itself.
    pub fn root() -> (r: FieldPath)
        ensures
            r@ == Seq::<SegmentModel>::empty(),
            r.segments@ == Seq::<Segment>::empty(),
    {
        let r = FieldPath { segments: Vec::new() };
        assert(r@ =~= Seq::<SegmentModel>::empty());
        r
    }

    /// A path of one named field.
    pub fn field(name: &str) -> (r: FieldPath)
        ensures
            r@ == seq![SegmentModel::Field(name@)],
            r.segments@.len() == 1,
            r.segments@[0] is Field,
            r.segments@[0]->Field_0@ == name@,
    {
        let mut segments = Vec::new();
        segments.push(Segment::Field(name.to_string()));
        let r = FieldPath { segments };
        assert(r@ =~= seq![SegmentModel::Field(name@)]);
        r
    }

    /// A path made of the given segments, in order.
    pub fn from_segments(segments: Vec<Segment>) -> (r: FieldPath)
        ensures
            r@ == segments@.map_values(|s: Segment| s@),
            r.segments@ == segments@,
    {
        FieldPath { segments }
    }

    /// This path extended by one segment.
    pub fn push(self, segment: Segment) -> (r: FieldPath)
        ensures
            r@ == self@.push(segment@),
            r.segments@ == self.segments@.push(segment),
    {
        let mut segments = self.segments;
        segments.push(segment);
        let r = FieldPath { segments };
        assert(r@ =~= self@.push(segment@));
        r
    }

    pub fn segments(&self) -> (r: &Vec<Segment>)
        ensures
            r@.map_values(|s: Segment| s@) == self@,
    {
        &self.segments
    }

    pub fn len(&self) -> (r: usize)
        ensures
            r == self@.len(),
    {
        self.segments.len()
    }

    pub fn segment(&self, i: usize) -> (r: &Segment)
        requires
            i < self@.len(),
        ensures
            r@ == self@[i as int],
    {
        &self.segments[i]
    }

    /// Does the path point at the root of the event?
    pub fn is_root(&self) -> (r: bool)
        ensures
            r == (self@.len() == 0),
    {
        self.segments.len() == 0
    }

    /// Does the path hold an alternative (coalesced) segment?
    pub fn is_coalesced(&self) -> (r: bool)
        ensures
            r == has_coalesced(self@),
    {
        let mut i: usize = 0;
        while i < self.segments.len()
            invariant
                i <= self.segments.len(),
                forall|j: int| 0 <= j < i ==> !(self@[j] is Coalesce),
            decreases self.segments.len() - i,
        {
            if let Segment::Coalesce(_) = &self.segments[i] {
                assert(self@[i as int] is Coalesce);
                return true;
            }
            i = i + 1;
        }
        false
    }

    /// Are the two paths the same, segment by segment?
    pub fn same_as(&self, other: &FieldPath) -> (r: bool)
        ensures
            r == (self@ == other@),
    {
        if self.segments.len() != other.segments.len() {
            proof {
                assert(self@.len() != other@.len());
            }
            return false;
        }
        let mut i: usize = 0;
        while i < self.segments.len()
            invariant
                self.segments.len() == other.segments.len(),
                i <= self.segments.len(),
                forall|j: int| 0 <= j < i ==> self@[j] == other@[j],
            decreases self.segments.len() - i,
        {
            if !segment_equal(&self.segments[i], &other.segments[i]) {
                proof {
                    assert(self@[i as int] != other@[i as int]);
                }
                return false;
            }
            i = i + 1;
        }
        assert(self@ =~= other@);
        true
    }
}

} // verus!
