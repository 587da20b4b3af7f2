//! Signed bitmaps: a set of ids given either as the ids that match or as the
//! ids that do not, against an unbounded universe of ids.
use roaring::RoaringBitmap;
use vstd::prelude::*;

use crate::bitmap::{bitmap_and, bitmap_new, bitmap_or, bitmap_sub, ids_of};

verus! {

/// The mathematical value of a signed bitmap.
pub ghost enum SignedSet {
    Include(Set<u32>),
    Exclude(Set<u32>),
}

/// `Include(∅)`, the empty result.
pub open spec fn empty_set() -> SignedSet {
    SignedSet::Include(Set::empty())
}

/// `Exclude(∅)`, the full result.
pub open spec fn full_set() -> SignedSet {
    SignedSet::Exclude(Set::empty())
}

/// Whether an id belongs to the set that a signed set denotes.
pub open spec fn denotes(s: SignedSet, id: u32) -> bool {
    match s {
        SignedSet::Include(a) => a.contains(id),
        SignedSet::Exclude(a) => !a.contains(id),
    }
}

/// Intersection, by the table of the four kind combinations.
pub open spec fn and_spec(a: SignedSet, b: SignedSet) -> SignedSet {
    match (a, b) {
        (SignedSet::Include(x), SignedSet::Include(y)) => SignedSet::Include(x.intersect(y)),
        (SignedSet::Include(x), SignedSet::Exclude(y)) => SignedSet::Include(x.difference(y)),
        (SignedSet::Exclude(x), SignedSet::Include(y)) => SignedSet::Include(y.difference(x)),
        (SignedSet::Exclude(x), SignedSet::Exclude(y)) => SignedSet::Exclude(x.union(y)),
    }
}

/// Union, by the table of the four kind combinations.
pub open spec fn or_spec(a: SignedSet, b: SignedSet) -> SignedSet {
    match (a, b) {
        (SignedSet::Include(x), SignedSet::Include(y)) => SignedSet::Include(x.union(y)),
        (SignedSet::Include(x), SignedSet::Exclude(y)) => SignedSet::Exclude(y.difference(x)),
        (SignedSet::Exclude(x), SignedSet::Include(y)) => SignedSet::Exclude(x.difference(y)),
        (SignedSet::Exclude(x), SignedSet::Exclude(y)) => SignedSet::Exclude(x.intersect(y)),
    }
}

/// A set of ids: `Include(b)` holds exactly the ids in `b`, `Exclude(b)`
/// exactly the ids not in `b`.
#[derive(Debug, PartialEq)]
pub enum SignedRoaringBitmap {
    Include(RoaringBitmap),
    Exclude(RoaringBitmap),
}

impl View for SignedRoaringBitmap {
    type V = SignedSet;

    open spec fn view(&self) -> SignedSet {
        match self {
            SignedRoaringBitmap::Include(b) => SignedSet::Include(ids_of(*b)),
            SignedRoaringBitmap::Exclude(b) => SignedSet::Exclude(ids_of(*b)),
        }
    }
}

impl SignedRoaringBitmap {
    /// The empty result: no id matches.
    pub fn empty() -> (r: SignedRoaringBitmap)
        ensures
            r@ == empty_set(),
    {
        SignedRoaringBitmap::Include(bitmap_new())
    }

    /// The full result: every id matches.
    pub fn full() -> (r: SignedRoaringBitmap)
        ensures
            r@ == full_set(),
    {
        SignedRoaringBitmap::Exclude(bitmap_new())
    }

    /// Intersection of two signed bitmaps.
    pub fn bitand(self, rhs: SignedRoaringBitmap) -> (r: SignedRoaringBitmap)
        ensures
            r@ == and_spec(self@, rhs@),
    {
        match (self, rhs) {
            (SignedRoaringBitmap::Include(a), SignedRoaringBitmap::Include(b)) => {
                SignedRoaringBitmap::Include(bitmap_and(&a, &b))
            },
            (SignedRoaringBitmap::Include(a), SignedRoaringBitmap::Exclude(b)) => {
                SignedRoaringBitmap::Include(bitmap_sub(&a, &b))
            },
            (SignedRoaringBitmap::Exclude(a), SignedRoaringBitmap::Include(b)) => {
                SignedRoaringBitmap::Include(bitmap_sub(&b, &a))
            },
            (SignedRoaringBitmap::Exclude(a), SignedRoaringBitmap::Exclude(b)) => {
                SignedRoaringBitmap::Exclude(bitmap_or(&a, &b))
            },
        }
    }

    /// Union of two signed bitmaps.
    pub fn bitor(self, rhs: SignedRoaringBitmap) -> (r: SignedRoaringBitmap)
        ensures
            r@ == or_spec(self@, rhs@),
    {
        match (self, rhs) {
            (SignedRoaringBitmap::Include(a), SignedRoaringBitmap::Include(b)) => {
                SignedRoaringBitmap::Include(bitmap_or(&a, &b))
            },
            (SignedRoaringBitmap::Include(a), SignedRoaringBitmap::Exclude(b)) => {
                SignedRoaringBitmap::Exclude(bitmap_sub(&b, &a))
            },
            (SignedRoaringBitmap::Exclude(a), SignedRoaringBitmap::Include(b)) => {
                SignedRoaringBitmap::Exclude(bitmap_sub(&a, &b))
            },
            (SignedRoaringBitmap::Exclude(a), SignedRoaringBitmap::Exclude(b)) => {
                SignedRoaringBitmap::Exclude(bitmap_and(&a, &b))
            },
        }
    }
}

/// AND and OR are commutative; `full()` is the identity of AND and `empty()`
/// the identity of OR.
pub proof fn lemma_and_or_commutative_with_identities(a: SignedSet, b: SignedSet)
    ensures
        and_spec(a, b) == and_spec(b, a),
        or_spec(a, b) == or_spec(b, a),
        and_spec(a, full_set()) == a,
        or_spec(a, empty_set()) == a,
{
    match (a, b) {
        (SignedSet::Include(x), SignedSet::Include(y)) => {
            assert(x.intersect(y) =~= y.intersect(x));
            assert(x.union(y) =~= y.union(x));
        },
        (SignedSet::Exclude(x), SignedSet::Exclude(y)) => {
            assert(x.intersect(y) =~= y.intersect(x));
            assert(x.union(y) =~= y.union(x));
        },
        _ => {},
    }
    match a {
        SignedSet::Include(x) => {
            assert(x.difference(Set::empty()) =~= x);
            assert(x.union(Set::empty()) =~= x);
        },
        SignedSet::Exclude(x) => {
            assert(x.union(Set::empty()) =~= x);
            assert(x.difference(Set::empty()) =~= x);
        },
    }
}

/// An exclusion is idempotent under AND, and an inclusion ANDed with the
/// exclusion of the same set is empty.
pub proof fn lemma_exclude_idempotent_and_cancels_include(s: Set<u32>)
    ensures
        and_spec(SignedSet::Exclude(s), SignedSet::Exclude(s)) == SignedSet::Exclude(s),
        and_spec(SignedSet::Include(s), SignedSet::Exclude(s)) == SignedSet::Include(
            s.difference(s),
        ),
        and_spec(SignedSet::Include(s), SignedSet::Exclude(s)) == empty_set(),
{
    assert(s.union(s) =~= s);
    assert(s.difference(s) =~= Set::<u32>::empty());
}

/// What a signed set denotes is the intersection, and the union, of what its
/// operands denote.
pub proof fn lemma_denotes_and_or(a: SignedSet, b: SignedSet, id: u32)
    ensures
        denotes(and_spec(a, b), id) == (denotes(a, id) && denotes(b, id)),
        denotes(or_spec(a, b), id) == (denotes(a, id) || denotes(b, id)),
{
}

} // verus!
