//! The log namespaces a schema can be valid for.
use vstd::prelude::*;

verus! {

/// A dialect of event layout.
#[derive(Clone, Copy, Debug, PartialEq, Eq, PartialOrd, Ord, Hash)]
pub enum LogNamespace {
    Vector,
    Legacy,
}

/// A set of log namespaces.
#[derive(Clone, Copy, Debug, PartialEq, Eq, PartialOrd, Ord, Hash)]
pub struct NamespaceSet {
    legacy: bool,
    vector: bool,
}

impl View for NamespaceSet {
    type V = Set<LogNamespace>;

    closed spec fn view(&self) -> Set<LogNamespace> {
        Set::new(
            |n: LogNamespace|
                match n {
                    LogNamespace::Legacy => self.legacy,
                    LogNamespace::Vector => self.vector,
                },
        )
    }
}

impl NamespaceSet {
    /// The set with no namespace.
    pub fn new() -> (r: NamespaceSet)
        ensures
            r@ == Set::<LogNamespace>::empty(),
    {
        let r = NamespaceSet { legacy: false, vector: false };
        assert(r@ =~= Set::<LogNamespace>::empty());
        r
    }

    /// The set of the namespaces in `items`.
    pub fn from_slice(items: &[LogNamespace]) -> (r: NamespaceSet)
        ensures
            r@ == items@.to_set(),
    {
        let mut r = NamespaceSet::new();
        let mut i: usize = 0;
        while i < items.len()
            invariant
                i <= items@.len(),
                r@ == items@.subrange(0, i as int).to_set(),
            decreases items@.len() - i,
        {
            let ghost before = r@;
            r.insert(items[i]);
            proof {
                assert(items@.subrange(0, i + 1) =~= items@.subrange(0, i as int).push(items@[i as int]));
                items@.subrange(0, i as int).lemma_push_to_set_commute(items@[i as int]);
            }
            i = i + 1;
        }
        assert(items@.subrange(0, items@.len() as int) =~= items@);
        r
    }

    /// Adds a namespace to the set.
    pub fn insert(&mut self, n: LogNamespace)
        ensures
            final(self)@ == old(self)@.insert(n),
    {
        match n {
            LogNamespace::Legacy => self.legacy = true,
            LogNamespace::Vector => self.vector = true,
        }
        assert(self@ =~= old(self)@.insert(n));
    }

    pub fn contains(&self, n: LogNamespace) -> (r: bool)
        ensures
            r == self@.contains(n),
    {
        match n {
            LogNamespace::Legacy => self.legacy,
            LogNamespace::Vector => self.vector,
        }
    }
}

} // verus!
