//! The engine's sole output artifact: a deduplicated set of feature codes.
//!
//! The codes are held in a `hashbrown::HashSet<u64>`. Verus cannot read that
//! type (its allocator parameter's trait bound is not publicly nameable), so
//! the set lives in a private field of an opaque struct, its contents are
//! given a name (`fs_codes`), and each hash-set method the engine calls is a
//! trusted wrapper whose contract speaks over that name. Everything built on
//! top of the wrappers is verified.

use vstd::prelude::*;

verus! {

/// A deduplicated set of feature codes with standard set semantics.
#[derive(Debug)]
#[verifier::external_body]
pub struct FeatureSet {
    inner: hashbrown::HashSet<u64>,
}

/// The codes a `FeatureSet` holds.
pub uninterp spec fn fs_codes(s: FeatureSet) -> Set<u64>;

impl FeatureSet {
    /// Relies on `hashbrown::HashSet::new`: a freshly created set holds no
    /// elements.
    #[verifier::external_body]
    pub fn new() -> (r: FeatureSet)
        ensures
            fs_codes(r) == Set::<u64>::empty(),
    {
        FeatureSet { inner: hashbrown::HashSet::new() }
    }

    /// Relies on `hashbrown::HashSet::insert`: afterwards the set holds the
    /// new element and everything it held before.
    #[verifier::external_body]
    pub fn insert(&mut self, c: u64)
        ensures
            fs_codes(*final(self)) == fs_codes(*old(self)).insert(c),
    {
        self.inner.insert(c);
    }

    /// Relies on `hashbrown::HashSet::contains`: whether the set holds the
    /// element.
    #[verifier::external_body]
    pub fn contains(&self, c: u64) -> (r: bool)
        ensures
            r == fs_codes(*self).contains(c),
    {
        self.inner.contains(&c)
    }

    /// Relies on `hashbrown::HashSet::is_empty`: whether the set holds no
    /// element.
    #[verifier::external_body]
    pub fn is_empty(&self) -> (r: bool)
        ensures
            r <==> fs_codes(*self) =~= Set::<u64>::empty(),
    {
        self.inner.is_empty()
    }

    /// Relies on `hashbrown::HashSet`'s `PartialEq`: two sets are equal
    /// exactly when they hold the same elements.
    #[verifier::external_body]
    pub fn set_eq(&self, other: &FeatureSet) -> (r: bool)
        ensures
            r <==> fs_codes(*self) =~= fs_codes(*other),
    {
        self.inner == other.inner
    }

    /// Relies on `hashbrown::HashSet`'s `Clone`: the copy holds the same
    /// elements.
    #[verifier::external_body]
    pub fn duplicate(&self) -> (r: FeatureSet)
        ensures
            fs_codes(r) == fs_codes(*self),
    {
        FeatureSet { inner: self.inner.clone() }
    }

    /// Relies on `hashbrown::HashSet::iter`: iteration yields each element
    /// exactly once, in no promised order.
    #[verifier::external_body]
    pub fn to_vec(&self) -> (r: Vec<u64>)
        ensures
            r@.no_duplicates(),
            r@.to_set() == fs_codes(*self),
    {
        self.inner.iter().copied().collect()
    }

    /// Add every code of `other` to this set.
    pub fn union_with(&mut self, other: &FeatureSet)
        ensures
            fs_codes(*final(self)) =~= fs_codes(*old(self)).union(fs_codes(*other)),
    {
        let v = other.to_vec();
        let mut i: usize = 0;
        while i < v.len()
            invariant
                0 <= i <= v@.len(),
                v@.to_set() == fs_codes(*other),
                fs_codes(*self) =~= fs_codes(*old(self)).union(set_of_prefix(v@, i as int)),
            decreases v@.len() - i,
        {
            self.insert(v[i]);
            i += 1;
        }
        proof {
            lemma_set_of_prefix_full(v@);
        }
    }

    /// Add one feature of the vocabulary to this set.
    pub fn insert_feature(&mut self, f: crate::features::FeatureId)
        ensures
            fs_codes(*final(self)) == fs_codes(*old(self)).insert(crate::features::spec_code(f)),
    {
        let c = f.code();
        self.insert(c);
    }

    /// Whether this set holds a feature of the vocabulary.
    pub fn contains_feature(&self, f: crate::features::FeatureId) -> (r: bool)
        ensures
            r == fs_codes(*self).contains(crate::features::spec_code(f)),
    {
        let c = f.code();
        self.contains(c)
    }
}

/// The set of the first `n` elements of a sequence of codes.
pub open spec fn set_of_prefix(s: Seq<u64>, n: int) -> Set<u64>
    decreases n,
{
    if n <= 0 {
        Set::empty()
    } else {
        set_of_prefix(s, n - 1).insert(s[n - 1])
    }
}

proof fn lemma_set_of_prefix_contains(s: Seq<u64>, n: int, x: u64)
    requires
        0 <= n <= s.len(),
    ensures
        set_of_prefix(s, n).contains(x) <==> (exists|j: int| 0 <= j < n && s[j] == x),
    decreases n,
{
    if n > 0 {
        lemma_set_of_prefix_contains(s, n - 1, x);
        if s[n - 1] == x {
            assert(set_of_prefix(s, n).contains(x));
        }
    }
}

/// The set of all elements of a sequence of codes.
pub proof fn lemma_set_of_prefix_full(s: Seq<u64>)
    ensures
        set_of_prefix(s, s.len() as int) =~= s.to_set(),
{
    assert forall|x: u64| set_of_prefix(s, s.len() as int).contains(x) <==> s.to_set().contains(x) by {
        lemma_set_of_prefix_contains(s, s.len() as int, x);
        assert(s.to_set().contains(x) <==> s.contains(x));
    }
}

/// Unioning a set of feature codes with itself yields the same set.
pub proof fn lemma_union_idempotent(s: Set<u64>)
    ensures
        s.union(s) =~= s,
{
}

} // verus!
