//! Where a named meaning points: one path, or several that conflict.
use vstd::prelude::*;
use crate::path::{FieldPath, PathModel};

verus! {

/// The resolution of a meaning: exactly one path, or an ambiguous set of paths.
#[derive(Clone, Debug, PartialEq, Eq, PartialOrd, Ord)]
pub enum MeaningPointer {
    Valid(FieldPath),
    Invalid(Vec<FieldPath>),
}

/// The mathematical value of a meaning pointer.
pub ghost enum PointerModel {
    Valid(PathModel),
    Invalid(Set<PathModel>),
}

/// The set of paths held in a list of paths.
pub open spec fn paths_set(v: Seq<FieldPath>) -> Set<PathModel> {
    Set::new(|p: PathModel| exists|i: int| 0 <= i < v.len() && v[i]@ == p)
}

impl View for MeaningPointer {
    type V = PointerModel;

    open spec fn view(&self) -> PointerModel {
        match self {
            MeaningPointer::Valid(p) => PointerModel::Valid(p@),
            MeaningPointer::Invalid(v) => PointerModel::Invalid(paths_set(v@)),
        }
    }
}

/// No path occurs twice in the list.
pub open spec fn paths_distinct(v: Seq<FieldPath>) -> bool {
    forall|i: int, j: int| 0 <= i < j < v.len() ==> v[i]@ != v[j]@
}

/// An ambiguous pointer lists each of its paths once.
pub open spec fn pointer_distinct(p: MeaningPointer) -> bool {
    match p {
        MeaningPointer::Valid(_) => true,
        MeaningPointer::Invalid(v) => paths_distinct(v@),
    }
}

/// All paths a pointer names.
pub open spec fn pointer_paths(m: PointerModel) -> Set<PathModel> {
    match m {
        PointerModel::Valid(p) => set![p],
        PointerModel::Invalid(s) => s,
    }
}

/// Combining two resolutions of the same meaning: identical single paths stay
/// resolved, anything else becomes ambiguous over all paths of both sides.
pub open spec fn merge_pointers(a: PointerModel, b: PointerModel) -> PointerModel {
    match (a, b) {
        (PointerModel::Valid(p), PointerModel::Valid(q)) => if p == q {
            PointerModel::Valid(p)
        } else {
            PointerModel::Invalid(set![p, q])
        },
        _ => PointerModel::Invalid(pointer_paths(a).union(pointer_paths(b))),
    }
}

/// A pointer that is well formed: an ambiguous one names at least two paths.
pub open spec fn pointer_wf(m: PointerModel) -> bool {
    match m {
        PointerModel::Valid(_) => true,
        PointerModel::Invalid(s) => s.finite() && s.len() >= 2,
    }
}

/// Adds `p` to the list of paths unless a path equal to it is already there.
fn add_path(paths: &mut Vec<FieldPath>, p: FieldPath)
    requires
        paths_distinct(old(paths)@),
    ensures
        paths_set(final(paths)@) == paths_set(old(paths)@).insert(p@),
        paths_distinct(final(paths)@),
{
    let mut i: usize = 0;
    while i < paths.len()
        invariant
            i <= paths.len(),
            forall|j: int| 0 <= j < i ==> paths@[j]@ != p@,
            paths@ == old(paths)@,
            paths_distinct(old(paths)@),
        decreases paths.len() - i,
    {
        if paths[i].same_as(&p) {
            proof {
                assert(paths_set(paths@) =~= paths_set(paths@).insert(p@));
            }
            return;
        }
        i = i + 1;
    }
    let ghost before = paths@;
    paths.push(p);
    proof {
        assert forall|q: PathModel| paths_set(before).insert(p@).contains(q) implies paths_set(
            paths@,
        ).contains(q) by {
            if q == p@ {
                assert(paths@[before.len() as int]@ == q);
            } else {
                let j = choose|j: int| 0 <= j < before.len() && before[j]@ == q;
                assert(paths@[j]@ == q);
            }
        }
        assert forall|q: PathModel| paths_set(paths@).contains(q) implies paths_set(
            before,
        ).insert(p@).contains(q) by {
            let j = choose|j: int| 0 <= j < paths@.len() && paths@[j]@ == q;
            if j < before.len() {
                assert(before[j]@ == q);
            }
        }
        assert(paths_set(paths@) =~= paths_set(before).insert(p@));
    }
}

impl MeaningPointer {
    /// Combines two resolutions of the same meaning.
    pub fn merge(self, other: MeaningPointer) -> (r: MeaningPointer)
        requires
            pointer_distinct(self),
            pointer_distinct(other),
        ensures
            r@ == merge_pointers(self@, other@),
            pointer_distinct(r),
    {
        match self {
            MeaningPointer::Valid(lhs) => match other {
                MeaningPointer::Valid(rhs) => {
                    if lhs.same_as(&rhs) {
                        MeaningPointer::Valid(lhs)
                    } else {
                        let mut set = Vec::new();
                        add_path(&mut set, lhs);
                        add_path(&mut set, rhs);
                        proof {
                            assert(paths_set(Seq::<FieldPath>::empty()) =~= Set::empty());
                        }
                        let r = MeaningPointer::Invalid(set);
                        assert(paths_set(set@) =~= set![lhs@, rhs@]);
                        r
                    }
                },
                MeaningPointer::Invalid(rhs) => {
                    let ghost g = rhs;
                    let mut rhs = rhs;
                    add_path(&mut rhs, lhs);
                    assert(paths_set(rhs@) =~= set![lhs@].union(paths_set(g@)));
                    MeaningPointer::Invalid(rhs)
                },
            },
            MeaningPointer::Invalid(lhs) => {
                let ghost g = lhs;
                let mut lhs = lhs;
                match other {
                    MeaningPointer::Valid(rhs) => {
                        add_path(&mut lhs, rhs);
                        assert(paths_set(lhs@) =~= paths_set(g@).union(set![rhs@]));
                    },
                    MeaningPointer::Invalid(rhs) => {
                        let mut rest = rhs;
                        let ghost all = paths_set(rest@);
                        while rest.len() > 0
                            invariant
                                paths_set(g@).union(all) == paths_set(lhs@).union(
                                    paths_set(rest@),
                                ),
                                paths_distinct(lhs@),
                            decreases rest.len(),
                        {
                            let ghost before = rest@;
                            let p = rest.pop().unwrap();
                            proof {
                                assert(before =~= rest@.push(p));
                                assert(paths_set(before) =~= paths_set(rest@).insert(p@)) by {
                                    assert forall|q: PathModel| paths_set(before).contains(q) implies paths_set(rest@).insert(p@).contains(q) by {
                                        let j = choose|j: int| 0 <= j < before.len() && before[j]@ == q;
                                        if j < rest@.len() {
                                            assert(rest@[j]@ == q);
                                        }
                                    }
                                    assert forall|q: PathModel| paths_set(rest@).insert(p@).contains(q) implies paths_set(before).contains(q) by {
                                        if q == p@ {
                                            assert(before[rest@.len() as int]@ == q);
                                        } else {
                                            let j = choose|j: int| 0 <= j < rest@.len() && rest@[j]@ == q;
                                            assert(before[j]@ == q);
                                        }
                                    }
                                }
                            }
                            add_path(&mut lhs, p);
                            proof {
                                assert(paths_set(g@).union(all) =~= paths_set(lhs@).union(
                                    paths_set(rest@),
                                ));
                            }
                        }
                        proof {
                            assert(paths_set(rest@) =~= Set::empty());
                            assert(paths_set(lhs@) =~= paths_set(g@).union(all));
                        }
                    },
                }
                MeaningPointer::Invalid(lhs)
            },
        }
    }
}

/// Merging pointers does not depend on the order of the two sides.
pub proof fn merge_pointers_commutative(a: PointerModel, b: PointerModel)
    ensures
        merge_pointers(a, b) == merge_pointers(b, a),
{
    match (a, b) {
        (PointerModel::Valid(p), PointerModel::Valid(q)) => {
            assert(set![p, q] =~= set![q, p]);
        },
        _ => {
            assert(pointer_paths(a).union(pointer_paths(b)) =~= pointer_paths(b).union(
                pointer_paths(a),
            ));
        },
    }
}

/// The paths named by a merge are those of both sides.
pub proof fn merge_pointers_paths(a: PointerModel, b: PointerModel)
    ensures
        pointer_paths(merge_pointers(a, b)) == pointer_paths(a).union(pointer_paths(b)),
{
    match (a, b) {
        (PointerModel::Valid(p), PointerModel::Valid(q)) => {
            assert(set![p].union(set![q]) =~= set![p, q]);
            if p == q {
                assert(set![p].union(set![q]) =~= set![p]);
            }
        },
        _ => {},
    }
}

/// Merging pointers may be grouped either way.
pub proof fn merge_pointers_associative(a: PointerModel, b: PointerModel, c: PointerModel)
    ensures
        merge_pointers(merge_pointers(a, b), c) == merge_pointers(a, merge_pointers(b, c)),
{
    merge_pointers_paths(a, b);
    merge_pointers_paths(b, c);
    merge_pointers_paths(merge_pointers(a, b), c);
    merge_pointers_paths(a, merge_pointers(b, c));
    let l = merge_pointers(merge_pointers(a, b), c);
    let r = merge_pointers(a, merge_pointers(b, c));
    assert(pointer_paths(a).union(pointer_paths(b)).union(pointer_paths(c)) =~= pointer_paths(
        a,
    ).union(pointer_paths(b).union(pointer_paths(c))));
    match (a, b, c) {
        (PointerModel::Valid(p), PointerModel::Valid(q), PointerModel::Valid(s)) => {
            if p == q && q == s {
            } else {
                assert(l is Invalid);
                assert(r is Invalid);
            }
        },
        _ => {
            assert(l is Invalid);
            assert(r is Invalid);
        },
    }
}

/// A merge of well-formed pointers is well formed.
pub proof fn merge_pointers_wf(a: PointerModel, b: PointerModel)
    requires
        pointer_wf(a),
        pointer_wf(b),
    ensures
        pointer_wf(merge_pointers(a, b)),
{
    merge_pointers_paths(a, b);
    match merge_pointers(a, b) {
        PointerModel::Valid(_) => {},
        PointerModel::Invalid(s) => {
            match (a, b) {
                (PointerModel::Valid(p), PointerModel::Valid(q)) => {
                    assert(set![p, q].len() == 2) by {
                        assert(set![p, q] =~= set![p].insert(q));
                    }
                },
                (PointerModel::Invalid(sa), _) => {
                    vstd::set_lib::lemma_len_subset(sa, s);
                },
                (_, PointerModel::Invalid(sb)) => {
                    vstd::set_lib::lemma_len_subset(sb, s);
                },
            }
        },
    }
}

/// Merging a pointer with itself leaves it as it was.
pub proof fn merge_pointers_idempotent(a: PointerModel)
    ensures
        merge_pointers(a, a) == a,
{
    match a {
        PointerModel::Valid(_) => {},
        PointerModel::Invalid(s) => {
            assert(s.union(s) =~= s);
        },
    }
}

/// Merging never turns an ambiguous pointer back into a resolved one, and
/// keeps every path of both sides.
pub proof fn merge_keeps_ambiguity(a: PointerModel, b: PointerModel)
    requires
        a is Invalid || b is Invalid,
    ensures
        merge_pointers(a, b) is Invalid,
        pointer_paths(a).subset_of(pointer_paths(merge_pointers(a, b))),
        pointer_paths(b).subset_of(pointer_paths(merge_pointers(a, b))),
{
    merge_pointers_paths(a, b);
}

} // verus!
